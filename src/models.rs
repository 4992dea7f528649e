use vstd::prelude::*;
use vstd::string::StringExecFns;

verus! {

/// A list of courses.
#[derive(Debug)]
pub struct Courses {
    pub courses: Vec<Course>,
}

/// A course: its identifier and its name.
#[derive(Debug)]
pub struct Course {
    pub id: String,
    pub name: String,
}

/// A file stored in the drive, attached to a submission.
#[derive(Debug)]
pub struct DriveFile {
    pub id: String,
    pub title: String,
    pub drive_link: String,
}

/// An attachment of a submission.
#[derive(Debug)]
pub struct Attachment {
    pub drive_file: DriveFile,
}

/// The work handed in for an assignment.
#[derive(Debug)]
pub struct AssignmentSubmission {
    pub attachments: Option<Vec<Attachment>>,
}

/// The state of a student's submission.
#[derive(Debug, Clone, Copy, PartialEq, Eq, Structural)]
pub enum SubmissionState {
    SubmissionStateUnspecified,
    New,
    Created,
    TurnedIn,
    Returned,
    ReclaimedByStudent,
}

/// One student's submission for an assignment.
#[derive(Debug)]
pub struct StudentSubmission {
    pub user_id: String,
    pub late: Option<bool>,
    pub state: SubmissionState,
    pub assignment_submission: Option<AssignmentSubmission>,
}

/// All submissions for an assignment.
pub struct StudentSubmissions {
    pub student_submissions: Vec<StudentSubmission>,
}

/// A person's name.
#[derive(Debug, Clone)]
pub struct Name {
    pub full_name: String,
}

/// A person's profile.
#[derive(Debug, Clone)]
pub struct UserProfile {
    pub id: String,
    pub email_address: String,
    pub name: Name,
}

/// A student of a course.
#[derive(Debug, Clone)]
pub struct Student {
    pub user_id: String,
    pub profile: UserProfile,
}

/// One page of the students of a course.
#[derive(Debug, Clone)]
pub struct Students {
    pub students: Vec<Student>,
    pub next_page_token: Option<String>,
}

/// An assignment of a course.
#[derive(Debug)]
pub struct CourseWork {
    pub id: String,
    pub title: String,
}

/// The assignments of a course.
#[derive(Debug)]
pub struct CourseWorks {
    pub course_work: Vec<CourseWork>,
}

fn copy_text(s: &String) -> (r: String)
    ensures
        r@ == s@,
{
    <String as StringExecFns>::from_str(s.as_str())
}

impl Student {
    /// The texts of this student's record, as plain values.
    pub open spec fn texts(&self) -> (Seq<char>, Seq<char>, Seq<char>, Seq<char>) {
        (self.user_id@, self.profile.id@, self.profile.email_address@, self.profile.name.full_name@)
    }

    /// A copy of this student.
    pub fn duplicate(&self) -> (r: Student)
        ensures
            r.texts() == self.texts(),
    {
        Student {
            user_id: copy_text(&self.user_id),
            profile: UserProfile {
                id: copy_text(&self.profile.id),
                email_address: copy_text(&self.profile.email_address),
                name: Name { full_name: copy_text(&self.profile.name.full_name) },
            },
        }
    }
}

} // verus!
