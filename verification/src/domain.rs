//! Validated values of a subscription: the subscriber's name and address.

use vstd::prelude::*;

verus! {

/// Longest subscriber name that is accepted, counted in characters.
pub const MAX_NAME_LENGTH: usize = 256;

/// The characters that count as white space.
pub open spec fn is_space(c: char) -> bool {
    let code = c as u32;
    ||| 0x09 <= code <= 0x0d
    ||| code == 0x20
    ||| code == 0x85
    ||| code == 0xa0
    ||| code == 0x1680
    ||| 0x2000 <= code <= 0x200a
    ||| code == 0x2028
    ||| code == 0x2029
    ||| code == 0x202f
    ||| code == 0x205f
    ||| code == 0x3000
}

/// The characters that no subscriber name may hold.
pub open spec fn is_forbidden(c: char) -> bool {
    c == '/' || c == '(' || c == ')' || c == '"' || c == '<' || c == '>' || c == '\\' || c == '{'
        || c == '}'
}

/// A text is blank when it holds nothing but white space.
pub open spec fn is_blank(text: Seq<char>) -> bool {
    forall|i: int| 0 <= i < text.len() ==> is_space(#[trigger] text[i])
}

/// What a text must satisfy to be a subscriber name: it is not blank, has
/// at most `MAX_NAME_LENGTH` characters, and none of them is forbidden.
pub open spec fn is_valid_name(text: Seq<char>) -> bool {
    &&& !is_blank(text)
    &&& text.len() <= MAX_NAME_LENGTH
    &&& forall|i: int| 0 <= i < text.len() ==> !is_forbidden(#[trigger] text[i])
}

/// The text that tells a client that `text` was refused as a name.
pub open spec fn name_refusal(text: Seq<char>) -> Seq<char> {
    text + " is not a valid subscriber name."@
}

/// The text that tells a client that `text` was refused as an address.
pub open spec fn email_refusal(text: Seq<char>) -> Seq<char> {
    text + " is not a valid subscriber email."@
}

/// Whether `lettre` reads a text as an e-mail address.
pub uninterp spec fn address_accepted(text: Seq<char>) -> bool;

/// Asks `lettre::Address::from_str` whether it accepts `text`. The answer
/// depends on the text alone; what the parser accepts is not restated here.
#[verifier::external_body]
fn parses_as_address(text: &str) -> (accepted: bool)
    ensures
        accepted == address_accepted(text@),
{
    text.parse::<lettre::Address>().is_ok()
}

fn is_space_char(c: char) -> (space: bool)
    ensures
        space == is_space(c),
{
    let code: u32 = c as u32;
    (0x09 <= code && code <= 0x0d) || code == 0x20 || code == 0x85 || code == 0xa0 || code
        == 0x1680 || (0x2000 <= code && code <= 0x200a) || code == 0x2028 || code == 0x2029 || code
        == 0x202f || code == 0x205f || code == 0x3000
}

fn is_forbidden_char(c: char) -> (forbidden: bool)
    ensures
        forbidden == is_forbidden(c),
{
    c == '/' || c == '(' || c == ')' || c == '"' || c == '<' || c == '>' || c == '\\' || c == '{'
        || c == '}'
}

/// The name of a subscriber.
#[derive(Debug)]
pub struct SubscriberName {
    text: String,
}

impl View for SubscriberName {
    type V = Seq<char>;

    closed spec fn view(&self) -> Seq<char> {
        self.text@
    }
}

impl SubscriberName {
    #[verifier::type_invariant]
    closed spec fn well_formed(&self) -> bool {
        is_valid_name(self.text@)
    }

    /// Validates `text` as a name. A refused text comes back inside the
    /// error message.
    pub fn parse(text: String) -> (outcome: Result<SubscriberName, String>)
        ensures
            outcome is Ok <==> is_valid_name(text@),
            outcome is Ok ==> outcome->Ok_0@ == text@,
            outcome is Err ==> outcome->Err_0@ == name_refusal(text@),
    {
        let length: usize = text.as_str().unicode_len();
        if length > MAX_NAME_LENGTH {
            return Err(text.concat(" is not a valid subscriber name."));
        }
        let mut blank = true;
        let mut clean = true;
        let mut i: usize = 0;
        while i < length
            invariant
                i <= length,
                length == text@.len(),
                blank == is_blank(text@.take(i as int)),
                clean == forall|k: int| 0 <= k < i ==> !is_forbidden(#[trigger] text@[k]),
            decreases length - i,
        {
            let c = text.as_str().get_char(i);
            proof {
                let shorter = text@.take(i as int);
                let longer = text@.take(i + 1);
                assert(longer[i as int] == c);
                assert(forall|k: int| 0 <= k < i ==> shorter[k] == longer[k]);
                if is_blank(longer) {
                    assert forall|k: int| 0 <= k < shorter.len() implies is_space(
                        #[trigger] shorter[k],
                    ) by {
                        assert(is_space(longer[k]));
                    }
                }
            }
            if !is_space_char(c) {
                blank = false;
            }
            if is_forbidden_char(c) {
                clean = false;
            }
            i += 1;
        }
        proof {
            assert(text@.take(length as int) =~= text@);
        }
        if blank || !clean {
            Err(text.concat(" is not a valid subscriber name."))
        } else {
            Ok(SubscriberName { text })
        }
    }

    /// The name's text.
    pub fn as_ref(&self) -> (text: &str)
        ensures
            text@ == self@,
            is_valid_name(text@),
    {
        proof {
            use_type_invariant(self);
        }
        self.text.as_str()
    }

    /// A second name with the same text.
    pub fn duplicate(&self) -> (copy: SubscriberName)
        ensures
            copy@ == self@,
    {
        proof {
            use_type_invariant(self);
        }
        SubscriberName { text: self.text.clone() }
    }
}

/// The e-mail address of a subscriber.
#[derive(Debug)]
pub struct SubscriberEmail {
    text: String,
}

impl View for SubscriberEmail {
    type V = Seq<char>;

    closed spec fn view(&self) -> Seq<char> {
        self.text@
    }
}

impl SubscriberEmail {
    #[verifier::type_invariant]
    closed spec fn well_formed(&self) -> bool {
        address_accepted(self.text@)
    }

    /// Keeps `text` as an address when it is one. A refused text comes back
    /// inside the error message.
    pub fn parse(text: String) -> (outcome: Result<SubscriberEmail, String>)
        ensures
            outcome is Ok <==> address_accepted(text@),
            outcome is Ok ==> outcome->Ok_0@ == text@,
            outcome is Err ==> outcome->Err_0@ == email_refusal(text@),
    {
        let accepted = parses_as_address(text.as_str());
        Self::from_checked(text, accepted)
    }

    /// Keeps `text` as an address when `accepted` says that it is one, and
    /// turns it into the refusal otherwise.
    pub fn from_checked(text: String, accepted: bool) -> (outcome: Result<SubscriberEmail, String>)
        requires
            accepted == address_accepted(text@),
        ensures
            outcome is Ok <==> accepted,
            outcome is Ok ==> outcome->Ok_0@ == text@,
            outcome is Err ==> outcome->Err_0@ == email_refusal(text@),
    {
        if accepted {
            Ok(SubscriberEmail { text })
        } else {
            Err(text.concat(" is not a valid subscriber email."))
        }
    }

    /// The address as text.
    pub fn as_ref(&self) -> (text: &str)
        ensures
            text@ == self@,
            address_accepted(text@),
    {
        proof {
            use_type_invariant(self);
        }
        self.text.as_str()
    }

    /// A second address with the same text.
    pub fn duplicate(&self) -> (copy: SubscriberEmail)
        ensures
            copy@ == self@,
    {
        proof {
            use_type_invariant(self);
        }
        SubscriberEmail { text: self.text.clone() }
    }
}

/// A person who asked to subscribe, with validated name and address.
#[derive(Debug)]
pub struct NewSubscriber {
    pub email: SubscriberEmail,
    pub name: SubscriberName,
}

} // verus!
