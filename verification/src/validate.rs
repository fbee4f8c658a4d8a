//! Length-validated wrappers for the free-text fields of a person record.
//!
//! A `Name` or `Nick` holds at most 100 characters, a `Tech` at most 32.
//! Each can be built only through its validating conversion, so a value of
//! one of these types always satisfies its bound.

use vstd::prelude::*;
use vstd::string::StrSliceExecFns;

verus! {

/// Maximum number of characters in a name or a nickname.
pub const NAME_MAX: usize = 100;

/// Maximum number of characters in one technology label.
pub const TECH_MAX: usize = 32;

/// A text no longer than the given bound, in characters.
pub open spec fn within(s: Seq<char>, bound: int) -> bool {
    s.len() <= bound
}

/// The length-overflow condition of the validating conversions.
pub enum NameError {
    MaxCharacterOverflow,
}

/// A person's name: free text of at most 100 characters.
#[derive(Debug)]
pub struct Name(String);

impl View for Name {
    type V = Seq<char>;

    closed spec fn view(&self) -> Seq<char> {
        self.0@
    }
}

impl Name {
    /// A `Name` always satisfies its length bound.
    pub open spec fn wf(&self) -> bool {
        within(self@, NAME_MAX as int)
    }

    /// The validating conversion: accepts the text unchanged when it is
    /// within the bound, rejects it otherwise, and constructs nothing else.
    pub fn try_from(value: String) -> (r: Result<Name, &'static str>)
        ensures
            match r {
                Ok(n) => value@.len() <= NAME_MAX && n@ == value@ && n.wf(),
                Err(e) => value@.len() > NAME_MAX && e@ == "name is too big"@,
            },
    {
        if value.as_str().unicode_len() <= NAME_MAX {
            Ok(Name(value))
        } else {
            Err("name is too big")
        }
    }

    /// Hands the validated text back out, unchanged.
    pub fn into_string(self) -> (r: String)
        ensures
            r@ == self@,
    {
        self.0
    }
}

/// A person's nickname: free text of at most 100 characters.
#[derive(Debug)]
pub struct Nick(String);

impl View for Nick {
    type V = Seq<char>;

    closed spec fn view(&self) -> Seq<char> {
        self.0@
    }
}

impl Nick {
    /// A `Nick` always satisfies its length bound.
    pub open spec fn wf(&self) -> bool {
        within(self@, NAME_MAX as int)
    }

    /// The validating conversion for nicknames; same bound as for names.
    pub fn try_from(value: String) -> (r: Result<Nick, &'static str>)
        ensures
            match r {
                Ok(n) => value@.len() <= NAME_MAX && n@ == value@ && n.wf(),
                Err(e) => value@.len() > NAME_MAX && e@ == "nick is too big"@,
            },
    {
        if value.as_str().unicode_len() <= NAME_MAX {
            Ok(Nick(value))
        } else {
            Err("nick is too big")
        }
    }

    /// Hands the validated text back out, unchanged.
    pub fn into_string(self) -> (r: String)
        ensures
            r@ == self@,
    {
        self.0
    }
}

/// One technology label of a person's stack: at most 32 characters.
#[derive(Debug)]
pub struct Tech(String);

impl View for Tech {
    type V = Seq<char>;

    closed spec fn view(&self) -> Seq<char> {
        self.0@
    }
}

impl DeepView for Tech {
    type V = Seq<char>;

    open spec fn deep_view(&self) -> Seq<char> {
        self@
    }
}

impl Tech {
    /// A `Tech` always satisfies its length bound.
    pub open spec fn wf(&self) -> bool {
        within(self@, TECH_MAX as int)
    }

    /// The validating conversion for technology labels.
    pub fn try_from(value: String) -> (r: Result<Tech, &'static str>)
        ensures
            match r {
                Ok(t) => value@.len() <= TECH_MAX && t@ == value@ && t.wf(),
                Err(e) => value@.len() > TECH_MAX && e@ == "tech is too big"@,
            },
    {
        if value.as_str().unicode_len() <= TECH_MAX {
            Ok(Tech(value))
        } else {
            Err("tech is too big")
        }
    }

    /// A fresh copy of the validated text, unchanged.
    pub fn to_text(&self) -> (r: String)
        ensures
            r@ == self@,
    {
        self.0.clone()
    }

    /// Hands the validated text back out, unchanged.
    pub fn into_string(self) -> (r: String)
        ensures
            r@ == self@,
    {
        self.0
    }
}

} // verus!
