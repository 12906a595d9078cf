//! What is exchanged with a user directory: accounts as flat lists of named
//! texts, the requests that change them, and the ways a request can fail.

use aws_sdk_cognitoidentityprovider::types::AttributeType;
use vstd::prelude::*;
use vstd::string::StringExecFns;

use crate::base::domain_error::{DomainError, DomainErrorView};

verus! {

pub const ATTRIBUTE_ID: &'static str = "custom:id";

pub const ATTRIBUTE_NOME: &'static str = "custom:nome";

pub const ATTRIBUTE_EMAIL: &'static str = "custom:email";

pub const ATTRIBUTE_CPF: &'static str = "custom:cpf";

pub const ATTRIBUTE_SENHA: &'static str = "custom:senha";

pub const ATTRIBUTE_TIPO: &'static str = "custom:tipo";

pub const ATTRIBUTE_STATUS: &'static str = "custom:status";

pub const ATTRIBUTE_DATA_CRIACAO: &'static str = "custom:data_criacao";

pub const ATTRIBUTE_DATA_ATUALIZACAO: &'static str = "custom:data_atualizacao";

/// The nine attribute names, in the order in which an account is written.
pub open spec fn attribute_names() -> Seq<Seq<char>> {
    seq![
        ATTRIBUTE_ID@,
        ATTRIBUTE_NOME@,
        ATTRIBUTE_EMAIL@,
        ATTRIBUTE_CPF@,
        ATTRIBUTE_SENHA@,
        ATTRIBUTE_TIPO@,
        ATTRIBUTE_STATUS@,
        ATTRIBUTE_DATA_CRIACAO@,
        ATTRIBUTE_DATA_ATUALIZACAO@,
    ]
}

/// No two of the nine attribute names are the same text.
pub proof fn lemma_attribute_names_differ()
    ensures
        attribute_names().len() == 9,
        forall|i: int, j: int|
            0 <= i < j < 9 ==> #[trigger] attribute_names()[i] != #[trigger] attribute_names()[j],
{
    reveal_strlit("custom:id");
    reveal_strlit("custom:nome");
    reveal_strlit("custom:email");
    reveal_strlit("custom:cpf");
    reveal_strlit("custom:senha");
    reveal_strlit("custom:tipo");
    reveal_strlit("custom:status");
    reveal_strlit("custom:data_criacao");
    reveal_strlit("custom:data_atualizacao");
    let names = attribute_names();
    assert(names[0].len() == 9 && names[1].len() == 11 && names[2].len() == 12);
    assert(names[3].len() == 10 && names[4].len() == 12 && names[5].len() == 11);
    assert(names[6].len() == 13 && names[7].len() == 19 && names[8].len() == 23);
    assert(names[1][7] != names[5][7]);
    assert(names[2][7] != names[4][7]);
}

/// One attribute of a directory account. The directory may hold a name
/// without a value.
#[derive(Debug)]
pub struct Attribute {
    pub name: String,
    pub value: Option<String>,
}

/// An [`Attribute`] as contracts see it.
pub struct AttributeView {
    pub name: Seq<char>,
    pub value: Option<Seq<char>>,
}

impl View for Attribute {
    type V = AttributeView;

    open spec fn view(&self) -> AttributeView {
        AttributeView {
            name: self.name@,
            value: match self.value {
                Some(text) => Some(text@),
                None => None,
            },
        }
    }
}

impl DeepView for Attribute {
    type V = AttributeView;

    open spec fn deep_view(&self) -> AttributeView {
        self@
    }
}

impl Clone for Attribute {
    fn clone(&self) -> (r: Self)
        ensures
            r@ == self@,
    {
        Attribute {
            name: self.name.clone(),
            value: match &self.value {
                Some(text) => Some(text.clone()),
                None => None,
            },
        }
    }
}

/// The attribute that says `name` is `value`.
pub open spec fn named_value(name: Seq<char>, value: Seq<char>) -> AttributeView {
    AttributeView { name, value: Some(value) }
}

/// The text of an attribute's value, an absent value reading as no text.
pub open spec fn text_of(value: Option<Seq<char>>) -> Seq<char> {
    match value {
        Some(text) => text,
        None => Seq::empty(),
    }
}

/// What a record says under `name`: the text of the last attribute of that
/// name, and no text where the record has none.
pub open spec fn attribute_text(record: Seq<AttributeView>, name: Seq<char>) -> Seq<char>
    decreases record.len(),
{
    if record.len() == 0 {
        Seq::empty()
    } else if record.last().name == name {
        text_of(record.last().value)
    } else {
        attribute_text(record.drop_last(), name)
    }
}

/// In a record that holds no name twice, each attribute is what the record
/// says under its name.
pub proof fn lemma_attribute_text_of_distinct(record: Seq<AttributeView>, k: int)
    requires
        0 <= k < record.len(),
        forall|i: int, j: int|
            0 <= i < j < record.len() ==> (#[trigger] record[i]).name != (#[trigger] record[j]).name,
    ensures
        attribute_text(record, record[k].name) == text_of(record[k].value),
    decreases record.len(),
{
    if k < record.len() - 1 {
        let rest = record.drop_last();
        assert(record.last() == record[record.len() - 1]);
        assert(record[k].name != record[record.len() - 1].name);
        assert forall|i: int, j: int| 0 <= i < j < rest.len() implies (#[trigger] rest[i]).name != (
        #[trigger] rest[j]).name by {
            assert(rest[i] == record[i] && rest[j] == record[j]);
        }
        assert(rest[k] == record[k]);
        lemma_attribute_text_of_distinct(rest, k);
    }
}

/// The text in `option`, or an empty text.
pub fn option_to_string(option: Option<&str>) -> (text: String)
    ensures
        text@ == match option {
            Some(value) => value@,
            None => Seq::<char>::empty(),
        },
{
    match option {
        Some(value) => String::from_str(value),
        None => String::new(),
    }
}

/// Has the AWS SDK build the attribute: `AttributeType::builder()`, then
/// `name`, `value` and `build`, and copies the two fields of what was built.
/// The builder fails only where no name was given, and one is always given
/// here; it stores both texts as they are.
#[verifier::external_body]
fn build_attribute(name: &str, value: &str) -> (built: Option<Attribute>)
    ensures
        built is Some,
        built.unwrap()@ == named_value(name@, value@),
{
    match AttributeType::builder().name(name).value(value).build() {
        Ok(attribute) => Some(Attribute { name: attribute.name, value: attribute.value }),
        Err(_) => None,
    }
}

/// Builds one attribute for each pair of a name and a value, in their order.
/// A pair that the builder refuses is left out, and the others still stand.
pub fn build_attributes(pairs: &Vec<(&str, &str)>) -> (attributes: Vec<Attribute>)
    ensures
        attributes.deep_view() == Seq::new(
            pairs.len() as nat,
            |i: int| named_value(pairs[i].0@, pairs[i].1@),
        ),
{
    let mut attributes: Vec<Attribute> = Vec::new();
    let mut i: usize = 0;
    while i < pairs.len()
        invariant
            i <= pairs.len(),
            attributes.len() == i,
            forall|j: int|
                0 <= j < i ==> (#[trigger] attributes[j])@ == named_value(
                    pairs[j].0@,
                    pairs[j].1@,
                ),
        decreases pairs.len() - i,
    {
        match build_attribute(pairs[i].0, pairs[i].1) {
            Some(attribute) => {
                attributes.push(attribute);
            },
            None => {},
        }
        i += 1;
    }
    assert(attributes.deep_view() =~= Seq::new(
        pairs.len() as nat,
        |i: int| named_value(pairs[i].0@, pairs[i].1@),
    ));
    attributes
}

/// A request to add an account to the directory.
#[derive(Debug)]
pub struct CreateUserRequest {
    pub username: String,
    pub temporary_password: String,
    pub user_attributes: Vec<Attribute>,
}

/// A request to replace attributes of an account of the directory.
#[derive(Debug)]
pub struct UpdateUserAttributesRequest {
    pub username: String,
    pub user_attributes: Vec<Attribute>,
}

/// A request to remove an account from the directory.
#[derive(Debug)]
pub struct DeleteUserRequest {
    pub username: String,
}

/// How a request to the directory can fail.
#[derive(Clone, Copy, Debug, PartialEq, Eq, Structural)]
pub enum DirectoryFailure {
    /// The directory answered with an error of its own.
    Service,
    /// No answer came in time.
    Timeout,
    /// The request could not be sent.
    Dispatch,
    /// An answer came that could not be read.
    Response,
    /// Anything else.
    Other,
}

/// The error that a caller sees for a failed request about `subject`: always
/// `Invalid`, so that an outage is never taken for an absent account.
pub fn failure_to_error(failure: DirectoryFailure, subject: &str) -> (error: DomainError)
    ensures
        error@ == DomainErrorView::Invalid(subject@),
{
    match failure {
        DirectoryFailure::Service => DomainError::Invalid(String::from_str(subject)),
        DirectoryFailure::Timeout => DomainError::Invalid(String::from_str(subject)),
        DirectoryFailure::Dispatch => DomainError::Invalid(String::from_str(subject)),
        DirectoryFailure::Response => DomainError::Invalid(String::from_str(subject)),
        DirectoryFailure::Other => DomainError::Invalid(String::from_str(subject)),
    }
}

} // verus!
