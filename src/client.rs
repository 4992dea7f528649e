use vstd::prelude::*;

verus! {

/// Holds the access token of an authorised session, once there is one.
pub struct ClassroomClient {
    access_token: Option<String>,
}

impl ClassroomClient {
    /// The token held, if any.
    pub closed spec fn token_view(&self) -> Option<Seq<char>> {
        match self.access_token {
            Some(t) => Some(t@),
            None => None,
        }
    }

    /// A client that holds no token yet.
    pub fn new() -> (r: Self)
        ensures
            r.token_view() is None,
    {
        ClassroomClient { access_token: None }
    }

    /// Keeps the token obtained by authorising.
    pub fn set_token(&mut self, token: String)
        ensures
            final(self).token_view() == Some(token@),
    {
        self.access_token = Some(token);
    }

    /// The token held, if any.
    pub fn token(&self) -> (r: Option<&str>)
        ensures
            match r {
                Some(t) => self.token_view() == Some(t@),
                None => self.token_view() is None,
            },
    {
        match &self.access_token {
            Some(t) => Some(t.as_str()),
            None => None,
        }
    }
}

impl Default for ClassroomClient {
    fn default() -> (r: Self)
        ensures
            r.token_view() is None,
    {
        ClassroomClient::new()
    }
}

} // verus!
