//! Validated subscriber input: a display name and an email address.
use vstd::prelude::*;
use crate::text::{char_is_control, is_control};

verus! {

/// Longest accepted display name, in characters.
pub const MAX_NAME_LEN: usize = 256;

/// A display name is non-empty, at most `MAX_NAME_LEN` characters long and
/// holds no control character.
pub open spec fn valid_name(n: Seq<char>) -> bool {
    &&& 0 < n.len() <= MAX_NAME_LEN
    &&& forall|i: int| 0 <= i < n.len() ==> !is_control(#[trigger] n[i])
}

/// Characters that never occur in an accepted address.
pub open spec fn forbidden_in_email(c: char) -> bool {
    c == ' ' || is_control(c)
}

/// An address is a non-empty local part, one `@`, and a non-empty domain,
/// with no space or control character anywhere.
pub open spec fn valid_email(e: Seq<char>) -> bool {
    &&& exists|k: int|
        0 < k < e.len() - 1 && #[trigger] e[k] == '@' && forall|j: int|
            0 <= j < e.len() && j != k ==> #[trigger] e[j] != '@'
    &&& forall|j: int| 0 <= j < e.len() ==> !forbidden_in_email(#[trigger] e[j])
}

pub struct SubscriberName {
    name: String,
}

impl View for SubscriberName {
    type V = Seq<char>;

    closed spec fn view(&self) -> Seq<char> {
        self.name@
    }
}

impl SubscriberName {
    #[verifier::type_invariant]
    closed spec fn inv(&self) -> bool {
        valid_name(self.name@)
    }

    /// Accepts `s` as a display name, or says why not.
    pub fn parse(s: String) -> (r: Result<SubscriberName, String>)
        ensures
            r is Ok <==> valid_name(s@),
            r matches Ok(n) ==> n@ == s@,
            r matches Err(m) ==> m@ == s@ + " is not a valid subscriber name."@,
    {
        let n = s.as_str().unicode_len();
        let mut ok = 0 < n && n <= MAX_NAME_LEN;
        let mut i: usize = 0;
        while ok && i < n
            invariant
                n == s@.len(),
                i <= n,
                ok ==> 0 < n <= MAX_NAME_LEN,
                ok ==> forall|j: int| 0 <= j < i ==> !is_control(#[trigger] s@[j]),
                !ok ==> !valid_name(s@),
            decreases n - i,
        {
            if char_is_control(s.as_str().get_char(i)) {
                ok = false;
            }
            i = i + 1;
        }
        if ok {
            Ok(SubscriberName { name: s })
        } else {
            Err(s.concat(" is not a valid subscriber name."))
        }
    }

    pub fn as_str(&self) -> (r: &str)
        ensures
            r@ == self@,
    {
        self.name.as_str()
    }
}

pub struct SubscriberEmail {
    email: String,
}

impl View for SubscriberEmail {
    type V = Seq<char>;

    closed spec fn view(&self) -> Seq<char> {
        self.email@
    }
}

impl SubscriberEmail {
    #[verifier::type_invariant]
    closed spec fn inv(&self) -> bool {
        valid_email(self.email@)
    }

    /// Accepts `s` as an email address, or says why not.
    pub fn parse(s: String) -> (r: Result<SubscriberEmail, String>)
        ensures
            r is Ok <==> valid_email(s@),
            r matches Ok(e) ==> e@ == s@,
            r matches Err(m) ==> m@ == s@ + " is not a valid subscriber email."@,
    {
        if is_valid_email(s.as_str()) {
            Ok(SubscriberEmail { email: s })
        } else {
            Err(s.concat(" is not a valid subscriber email."))
        }
    }

    pub fn as_str(&self) -> (r: &str)
        ensures
            r@ == self@,
    {
        self.email.as_str()
    }
}

/// Decides [`valid_email`].
pub fn is_valid_email(s: &str) -> (r: bool)
    ensures
        r == valid_email(s@),
{
    let n = s.unicode_len();
    // number of `@` seen so far, capped at 2, and where the first two stand
    let mut ats: usize = 0;
    let mut first: usize = 0;
    let mut second: usize = 0;
    let mut clean = true;
    let mut i: usize = 0;
    while i < n
        invariant
            n == s@.len(),
            i <= n,
            ats <= 2,
            ats == 0 ==> forall|j: int| 0 <= j < i ==> #[trigger] s@[j] != '@',
            ats >= 1 ==> first < i && s@[first as int] == '@',
            ats == 1 ==> forall|j: int| 0 <= j < i && j != first ==> #[trigger] s@[j] != '@',
            ats == 2 ==> first < second < i && s@[second as int] == '@',
            clean <==> forall|j: int| 0 <= j < i ==> !forbidden_in_email(#[trigger] s@[j]),
        decreases n - i,
    {
        let c = s.get_char(i);
        if c == ' ' || char_is_control(c) {
            clean = false;
        }
        if c == '@' {
            if ats == 0 {
                first = i;
                ats = 1;
            } else if ats == 1 {
                second = i;
                ats = 2;
            }
        }
        i = i + 1;
    }
    let r = clean && ats == 1 && 0 < first && first + 1 < n;
    proof {
        if ats == 0 {
            assert(!valid_email(s@));
        } else if ats == 2 {
            if valid_email(s@) {
                let k = choose|k: int|
                    0 < k < s@.len() - 1 && #[trigger] s@[k] == '@' && forall|j: int|
                        0 <= j < s@.len() && j != k ==> #[trigger] s@[j] != '@';
                assert(s@[first as int] == '@');
                assert(s@[second as int] == '@');
            }
        } else if r {
            assert(s@[first as int] == '@');
        } else if valid_email(s@) {
            let k = choose|k: int|
                0 < k < s@.len() - 1 && #[trigger] s@[k] == '@' && forall|j: int|
                    0 <= j < s@.len() && j != k ==> #[trigger] s@[j] != '@';
            assert(s@[first as int] == '@');
        }
    }
    r
}

/// A subscriber's input once both fields have been accepted.
pub struct NewSubscriber {
    pub email: SubscriberEmail,
    pub name: SubscriberName,
}

impl NewSubscriber {
    /// Validates the submitted fields: the name first, then the address. The
    /// error is the message of the first field that was refused.
    pub fn parse(email: String, name: String) -> (r: Result<NewSubscriber, String>)
        ensures
            r is Ok <==> valid_name(name@) && valid_email(email@),
            r matches Ok(s) ==> s.email@ == email@ && s.name@ == name@,
            r matches Err(m) ==> m@ == (if !valid_name(name@) {
                name@ + " is not a valid subscriber name."@
            } else {
                email@ + " is not a valid subscriber email."@
            }),
    {
        let name = SubscriberName::parse(name)?;
        let email = SubscriberEmail::parse(email)?;
        Ok(NewSubscriber { email, name })
    }
}

} // verus!
