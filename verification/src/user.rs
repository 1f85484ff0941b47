use vstd::prelude::*;

verus! {

/// A registered account held by the registry.
///
/// Every record stored in a registry has passed validation: a non-empty
/// name and an email that contains at least one `@` character.
#[derive(Debug)]
pub struct User {
    pub id: u64,
    pub name: String,
    pub email: String,
    pub is_active: bool,
    pub roles: Vec<String>,
}

/// The mathematical value of a record: its texts as character sequences.
#[verifier::ext_equal]
pub ghost struct UserView {
    pub id: u64,
    pub name: Seq<char>,
    pub email: Seq<char>,
    pub is_active: bool,
    pub roles: Seq<Seq<char>>,
}

impl View for User {
    type V = UserView;

    open spec fn view(&self) -> UserView {
        UserView {
            id: self.id,
            name: self.name@,
            email: self.email@,
            is_active: self.is_active,
            roles: self.roles.deep_view(),
        }
    }
}

impl DeepView for User {
    type V = UserView;

    open spec fn deep_view(&self) -> UserView {
        self.view()
    }
}

/// The rule a candidate record violated.
#[derive(Debug, Clone, Copy, PartialEq, Eq, Structural)]
pub enum ValidationError {
    /// The supplied name is empty.
    EmptyName,
    /// The supplied email does not contain an `@` character.
    InvalidEmail,
}

/// A name is acceptable when it is non-empty.
pub open spec fn valid_name(name: Seq<char>) -> bool {
    name.len() > 0
}

/// An email is acceptable when it contains at least one `@` character.
pub open spec fn valid_email(email: Seq<char>) -> bool {
    exists|i: int| 0 <= i < email.len() && email[i] == '@'
}

/// A record is valid when both its name and its email are acceptable.
pub open spec fn user_valid(u: UserView) -> bool {
    valid_name(u.name) && valid_email(u.email)
}

/// Values that can check themselves against the registry's validation rules.
pub trait Validate {
    /// What it means for the value to be valid.
    spec fn valid(&self) -> bool;

    /// Reports whether the value is valid.
    fn is_valid(&self) -> (r: bool)
        ensures
            r == self.valid(),
    ;

    /// Checks the value, naming the violated rule on failure.
    fn validate(&self) -> (r: Result<(), ValidationError>)
        ensures
            r is Ok <==> self.valid(),
    ;
}

/// Reports whether `s` contains an `@` character.
fn contains_at_sign(s: &str) -> (r: bool)
    ensures
        r == valid_email(s@),
{
    let n = s.unicode_len();
    let mut i: usize = 0;
    while i < n
        invariant
            n == s@.len(),
            0 <= i <= n,
            forall|j: int| 0 <= j < i ==> s@[j] != '@',
        decreases n - i,
    {
        if s.get_char(i) == '@' {
            assert(s@[i as int] == '@');
            return true;
        }
        i = i + 1;
    }
    false
}

impl Validate for User {
    open spec fn valid(&self) -> bool {
        user_valid(self@)
    }

    fn is_valid(&self) -> (r: bool)
        ensures
            r == self.valid(),
    {
        !self.name.as_str().is_empty() && contains_at_sign(self.email.as_str())
    }

    fn validate(&self) -> (r: Result<(), ValidationError>)
        ensures
            r is Ok <==> self.valid(),
            self@.name.len() == 0 ==> r == Err::<(), ValidationError>(ValidationError::EmptyName),
            self@.name.len() > 0 && !valid_email(self@.email) ==> r == Err::<(), ValidationError>(
                ValidationError::InvalidEmail,
            ),
    {
        if self.name.as_str().is_empty() {
            return Err(ValidationError::EmptyName);
        }
        if !contains_at_sign(self.email.as_str()) {
            return Err(ValidationError::InvalidEmail);
        }
        Ok(())
    }
}

impl Clone for User {
    /// A clone carries the same record value as the original.
    fn clone(&self) -> (r: Self)
        ensures
            r@ == self@,
    {
        let r = User {
            id: self.id,
            name: self.name.clone(),
            email: self.email.clone(),
            is_active: self.is_active,
            roles: self.roles.clone(),
        };
        proof {
            assert(r.roles.deep_view() =~= self.roles.deep_view());
            assert(r@ =~= self@);
        }
        r
    }
}

impl ValidationError {
    /// A human-readable description of the violated rule.
    pub fn message(&self) -> (r: &'static str)
        ensures
            *self == ValidationError::EmptyName ==> r@ == "Name cannot be empty"@,
            *self == ValidationError::InvalidEmail ==> r@ == "Invalid email format"@,
    {
        match self {
            ValidationError::EmptyName => "Name cannot be empty",
            ValidationError::InvalidEmail => "Invalid email format",
        }
    }
}

} // verus!
