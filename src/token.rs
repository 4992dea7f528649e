use vstd::prelude::*;
use vstd::string::StringExecFns;

verus! {

/// The semantic category of a syntax-tree node.
#[derive(Debug, Clone, Hash)]
pub enum Token {
    Var,
    Func,
    ConstInt,
    ConstFloat,
    ConstStr,
    Loop,
    If,
    ArithOp,
    LogicOp,
    RelOp,
    Other(String),
}

/// The mathematical value of a token: an operator text is held as characters.
pub enum TokenModel {
    Var,
    Func,
    ConstInt,
    ConstFloat,
    ConstStr,
    Loop,
    If,
    ArithOp,
    LogicOp,
    RelOp,
    Other(Seq<char>),
}

impl View for Token {
    type V = TokenModel;

    open spec fn view(&self) -> TokenModel {
        match self {
            Token::Var => TokenModel::Var,
            Token::Func => TokenModel::Func,
            Token::ConstInt => TokenModel::ConstInt,
            Token::ConstFloat => TokenModel::ConstFloat,
            Token::ConstStr => TokenModel::ConstStr,
            Token::Loop => TokenModel::Loop,
            Token::If => TokenModel::If,
            Token::ArithOp => TokenModel::ArithOp,
            Token::LogicOp => TokenModel::LogicOp,
            Token::RelOp => TokenModel::RelOp,
            Token::Other(s) => TokenModel::Other(s@),
        }
    }
}

/// The values of a token sequence.
pub open spec fn tokens_view(ts: Seq<Token>) -> Seq<TokenModel> {
    ts.map_values(|t: Token| t@)
}

/// The label of a category, as it appears in the rendered label string.
pub open spec fn label(t: TokenModel) -> Seq<char> {
    match t {
        TokenModel::Var => "Var"@,
        TokenModel::Func => "Func"@,
        TokenModel::ConstInt => "ConstInt"@,
        TokenModel::ConstFloat => "ConstFloat"@,
        TokenModel::ConstStr => "ConstStr"@,
        TokenModel::Loop => "Loop"@,
        TokenModel::If => "If"@,
        TokenModel::ArithOp => "ArithOp"@,
        TokenModel::LogicOp => "LogicOp"@,
        TokenModel::RelOp => "RelOp"@,
        TokenModel::Other(_) => "Other"@,
    }
}

/// The weight of a category in the weighted cosine, doubled so that every
/// weight is an integer: branches and loops 4, calls 3, names and literals 1,
/// everything else 2. Doubling every weight leaves the cosine unchanged.
pub open spec fn weight(t: TokenModel) -> nat {
    match t {
        TokenModel::If | TokenModel::Loop => 4,
        TokenModel::Func => 3,
        TokenModel::Var | TokenModel::ConstInt | TokenModel::ConstFloat | TokenModel::ConstStr => 1,
        _ => 2,
    }
}

/// No label is longer than ten characters.
pub proof fn lemma_label_len(t: TokenModel)
    ensures
        label(t).len() <= 10,
{
    reveal_strlit("Var");
    reveal_strlit("Func");
    reveal_strlit("ConstInt");
    reveal_strlit("ConstFloat");
    reveal_strlit("ConstStr");
    reveal_strlit("Loop");
    reveal_strlit("If");
    reveal_strlit("ArithOp");
    reveal_strlit("LogicOp");
    reveal_strlit("RelOp");
    reveal_strlit("Other");
}

impl Token {
    /// The category label of this token.
    pub fn as_str(&self) -> (r: &str)
        ensures
            r@ == label(self@),
    {
        proof {
            reveal_strlit("Var");
            reveal_strlit("Func");
            reveal_strlit("ConstInt");
            reveal_strlit("ConstFloat");
            reveal_strlit("ConstStr");
            reveal_strlit("Loop");
            reveal_strlit("If");
            reveal_strlit("ArithOp");
            reveal_strlit("LogicOp");
            reveal_strlit("RelOp");
            reveal_strlit("Other");
        }
        match self {
            Token::Var => "Var",
            Token::Func => "Func",
            Token::ConstInt => "ConstInt",
            Token::ConstFloat => "ConstFloat",
            Token::ConstStr => "ConstStr",
            Token::Loop => "Loop",
            Token::If => "If",
            Token::ArithOp => "ArithOp",
            Token::LogicOp => "LogicOp",
            Token::RelOp => "RelOp",
            Token::Other(_) => "Other",
        }
    }

    /// The doubled cosine weight of this token.
    pub fn weight(&self) -> (r: u64)
        ensures
            r == weight(self@),
    {
        match self {
            Token::If | Token::Loop => 4,
            Token::Func => 3,
            Token::Var | Token::ConstInt | Token::ConstFloat | Token::ConstStr => 1,
            _ => 2,
        }
    }

    /// Whether two tokens are the same category (and, for `Other`, the same text).
    pub fn same(&self, o: &Token) -> (r: bool)
        ensures
            r == (self@ == o@),
    {
        match self {
            Token::Var => matches!(o, Token::Var),
            Token::Func => matches!(o, Token::Func),
            Token::ConstInt => matches!(o, Token::ConstInt),
            Token::ConstFloat => matches!(o, Token::ConstFloat),
            Token::ConstStr => matches!(o, Token::ConstStr),
            Token::Loop => matches!(o, Token::Loop),
            Token::If => matches!(o, Token::If),
            Token::ArithOp => matches!(o, Token::ArithOp),
            Token::LogicOp => matches!(o, Token::LogicOp),
            Token::RelOp => matches!(o, Token::RelOp),
            Token::Other(a) => match o {
                Token::Other(b) => <String as PartialEq>::eq(a, b),
                _ => false,
            },
        }
    }

    /// A copy of this token.
    pub fn duplicate(&self) -> (r: Token)
        ensures
            r@ == self@,
    {
        match self {
            Token::Var => Token::Var,
            Token::Func => Token::Func,
            Token::ConstInt => Token::ConstInt,
            Token::ConstFloat => Token::ConstFloat,
            Token::ConstStr => Token::ConstStr,
            Token::Loop => Token::Loop,
            Token::If => Token::If,
            Token::ArithOp => Token::ArithOp,
            Token::LogicOp => Token::LogicOp,
            Token::RelOp => Token::RelOp,
            Token::Other(s) => Token::Other(<String as StringExecFns>::from_str(s.as_str())),
        }
    }
}

impl PartialEq for Token {
    fn eq(&self, o: &Token) -> (r: bool) {
        self.same(o)
    }
}

impl vstd::std_specs::cmp::PartialEqSpecImpl for Token {
    open spec fn obeys_eq_spec() -> bool {
        true
    }

    open spec fn eq_spec(&self, o: &Token) -> bool {
        self@ == o@
    }
}

impl Eq for Token {
}

} // verus!
