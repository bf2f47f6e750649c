//! Identifiers of plans and of the requests made on their behalf.

use crate::text::digit_char;
use vstd::arithmetic::power::pow;
use vstd::prelude::*;
use vstd::string::StringExecFns;

verus! {

/// The lower-case hexadecimal digit for `d`; meaningful for `d < 16`.
pub open spec fn hex_char(d: nat) -> char {
    if d < 10 {
        digit_char(d)
    } else if d == 10 {
        'a'
    } else if d == 11 {
        'b'
    } else if d == 12 {
        'c'
    } else if d == 13 {
        'd'
    } else if d == 14 {
        'e'
    } else {
        'f'
    }
}

/// The hexadecimal digit of `value` at `position`, counted from the most
/// significant of its 32 digits.
pub open spec fn hex_digit_at(value: u128, position: int) -> nat {
    ((value as int / pow(16, (31 - position) as nat)) % 16) as nat
}

/// How many hexadecimal digits stand before place `i` of the hyphenated
/// form, which has hyphens at places 8, 13, 18 and 23.
pub open spec fn digits_before(i: int) -> int {
    if i < 8 {
        i
    } else if i < 13 {
        i - 1
    } else if i < 18 {
        i - 2
    } else if i < 23 {
        i - 3
    } else {
        i - 4
    }
}

/// The hyphenated form of a 128-bit identifier: its 32 lower-case
/// hexadecimal digits, most significant first, in groups of 8, 4, 4, 4
/// and 12 separated by hyphens.
pub open spec fn hyphenated(value: u128) -> Seq<char> {
    Seq::new(
        36,
        |i: int|
            if i == 8 || i == 13 || i == 18 || i == 23 {
                '-'
            } else {
                hex_char(hex_digit_at(value, digits_before(i)))
            },
    )
}

/// Calls `uuid::Uuid::from_u128` and formats the result with its `Display`
/// impl. Trusted: the text is the hyphenated lower-case form of `value`.
#[verifier::external_body]
fn uuid_text(value: u128) -> (text: String)
    ensures
        text@ == hyphenated(value),
{
    uuid::Uuid::from_u128(value).to_string()
}

/// Whether an identifier has the form of one drawn at random: its
/// thirteenth hexadecimal digit is 4, and its seventeenth is 8, 9, a or b.
pub open spec fn has_random_form(value: u128) -> bool {
    &&& hex_digit_at(value, 12) == 4
    &&& 8 <= hex_digit_at(value, 16) <= 11
}

/// Calls `uuid::Uuid::new_v4` and unpacks the result with `as_u128`.
/// Trusted: the identifier has the form of a random one; nothing else is
/// claimed of it.
#[verifier::external_body]
fn uuid_random() -> (value: u128)
    ensures
        has_random_form(value),
{
    uuid::Uuid::new_v4().as_u128()
}

#[verifier::external_type_specification]
#[verifier::external_body]
pub struct ExCancellationToken(tokio_util::sync::CancellationToken);

/// Calls `tokio_util::sync::CancellationToken::new`. Trusted: nothing is
/// claimed of the token, whose state any holder of a copy can change.
#[verifier::external_body]
fn new_cancellation_token() -> tokio_util::sync::CancellationToken {
    tokio_util::sync::CancellationToken::new()
}

/// The identifier of a plan, which is also the identifier of the session
/// that streams the plan's progress.
#[derive(Debug, Clone, Copy, PartialEq, Eq, Structural)]
pub struct PlanId {
    pub value: u128,
}

impl PlanId {
    pub fn from_u128(value: u128) -> (id: Self)
        ensures
            id.value == value,
    {
        PlanId { value }
    }

    pub fn as_u128(&self) -> (value: u128)
        ensures
            value == self.value,
    {
        self.value
    }

    /// A fresh identifier, drawn at random.
    pub fn random() -> (id: Self)
        ensures
            has_random_form(id.value),
    {
        PlanId { value: uuid_random() }
    }

    /// The identifier in hyphenated form.
    pub fn to_text(&self) -> (text: String)
        ensures
            text@ == hyphenated(self.value),
    {
        uuid_text(self.value)
    }
}

/// The identity of a request: `root_request_id` is shared by every attempt
/// at one logical request, `request_id` names this attempt.
#[derive(Debug)]
pub struct RequestId {
    root_request_id: String,
    request_id: String,
}

/// The mathematical content of a [`RequestId`].
pub struct RequestIdView {
    pub root_request_id: Seq<char>,
    pub request_id: Seq<char>,
}

impl View for RequestId {
    type V = RequestIdView;

    closed spec fn view(&self) -> RequestIdView {
        RequestIdView { root_request_id: self.root_request_id@, request_id: self.request_id@ }
    }
}

impl Clone for RequestId {
    fn clone(&self) -> (copy: Self)
        ensures
            copy@ == self@,
    {
        RequestId {
            root_request_id: self.root_request_id.clone(),
            request_id: self.request_id.clone(),
        }
    }
}

impl RequestId {
    pub fn new(root_request_id: String, request_id: String) -> (id: Self)
        ensures
            id@ == (RequestIdView {
                root_request_id: root_request_id@,
                request_id: request_id@,
            }),
    {
        RequestId { root_request_id, request_id }
    }

    /// The identity under which work on a plan is requested: both ids are
    /// the plan's identifier in hyphenated form.
    pub fn for_plan(plan_id: PlanId) -> (id: Self)
        ensures
            id@ == (RequestIdView {
                root_request_id: hyphenated(plan_id.value),
                request_id: hyphenated(plan_id.value),
            }),
    {
        let text = plan_id.to_text();
        RequestId { root_request_id: text.clone(), request_id: text }
    }

    pub fn root_request_id(&self) -> (id: &str)
        ensures
            id@ == self@.root_request_id,
    {
        self.root_request_id.as_str()
    }

    pub fn request_id(&self) -> (id: &str)
        ensures
            id@ == self@.request_id,
    {
        self.request_id.as_str()
    }
}

/// Which model answers a request, at which provider, and the key that
/// opens the provider's door.
#[derive(Debug)]
pub struct LlmProperties {
    model: String,
    provider: String,
    api_key: String,
}

/// The mathematical content of an [`LlmProperties`].
pub struct LlmPropertiesView {
    pub model: Seq<char>,
    pub provider: Seq<char>,
    pub api_key: Seq<char>,
}

impl View for LlmProperties {
    type V = LlmPropertiesView;

    closed spec fn view(&self) -> LlmPropertiesView {
        LlmPropertiesView { model: self.model@, provider: self.provider@, api_key: self.api_key@ }
    }
}

/// The model that answers where none is named.
pub open spec fn default_model() -> Seq<char> {
    "ClaudeSonnet"@
}

impl LlmProperties {
    pub fn new(model: String, provider: String, api_key: String) -> (properties: Self)
        ensures
            properties@ == (LlmPropertiesView {
                model: model@,
                provider: provider@,
                api_key: api_key@,
            }),
    {
        LlmProperties { model, provider, api_key }
    }

    /// The model `model_name` at Anthropic, or the default model where no
    /// name is given.
    pub fn anthropic(model_name: Option<String>, api_key: String) -> (properties: Self)
        ensures
            properties@ == (LlmPropertiesView {
                model: match model_name {
                    Some(name) => name@,
                    None => default_model(),
                },
                provider: "Anthropic"@,
                api_key: api_key@,
            }),
    {
        let model = match model_name {
            Some(name) => name,
            None => String::from_str("ClaudeSonnet"),
        };
        LlmProperties { model, provider: String::from_str("Anthropic"), api_key }
    }

    pub fn model(&self) -> (model: &str)
        ensures
            model@ == self@.model,
    {
        self.model.as_str()
    }

    pub fn provider(&self) -> (provider: &str)
        ensures
            provider@ == self@.provider,
    {
        self.provider.as_str()
    }

    pub fn api_key(&self) -> (api_key: &str)
        ensures
            api_key@ == self@.api_key,
    {
        self.api_key.as_str()
    }
}

/// What every call made for one request carries with it: the identity of
/// the request, the address of the editor that made it, the signal that
/// cancels all the work done for it, and, where the caller chose one, the
/// model to use.
pub struct RequestContext {
    request_id: RequestId,
    editor_url: String,
    cancellation_token: tokio_util::sync::CancellationToken,
    llm_properties: Option<LlmProperties>,
}

impl RequestContext {
    pub closed spec fn identity(&self) -> RequestIdView {
        self.request_id@
    }

    pub closed spec fn editor(&self) -> Seq<char> {
        self.editor_url@
    }

    /// The cancellation signal that the context carries.
    pub closed spec fn signal(&self) -> tokio_util::sync::CancellationToken {
        self.cancellation_token
    }

    pub closed spec fn llm(&self) -> Option<LlmPropertiesView> {
        match self.llm_properties {
            Some(properties) => Some(properties@),
            None => None,
        }
    }

    pub fn new(
        request_id: RequestId,
        editor_url: String,
        cancellation_token: tokio_util::sync::CancellationToken,
        llm_properties: Option<LlmProperties>,
    ) -> (context: Self)
        ensures
            context.identity() == request_id@,
            context.editor() == editor_url@,
            context.signal() == cancellation_token,
            context.llm() == match llm_properties {
                Some(properties) => Some(properties@),
                None => None,
            },
    {
        RequestContext { request_id, editor_url, cancellation_token, llm_properties }
    }

    /// The context of work on a plan: the request is named after the
    /// plan, and has a cancellation signal of its own.
    pub fn for_plan(plan_id: PlanId, editor_url: String) -> (context: Self)
        ensures
            context.identity() == (RequestIdView {
                root_request_id: hyphenated(plan_id.value),
                request_id: hyphenated(plan_id.value),
            }),
            context.editor() == editor_url@,
            context.llm() is None,
    {
        RequestContext {
            request_id: RequestId::for_plan(plan_id),
            editor_url,
            cancellation_token: new_cancellation_token(),
            llm_properties: None,
        }
    }

    pub fn request_id(&self) -> (request_id: &RequestId)
        ensures
            request_id@ == self.identity(),
    {
        &self.request_id
    }

    pub fn root_request_id(&self) -> (id: &str)
        ensures
            id@ == self.identity().root_request_id,
    {
        self.request_id.root_request_id()
    }

    pub fn editor_url(&self) -> (url: &str)
        ensures
            url@ == self.editor(),
    {
        self.editor_url.as_str()
    }

    pub fn llm_properties(&self) -> (properties: Option<&LlmProperties>)
        ensures
            match properties {
                Some(properties) => self.llm() == Some(properties@),
                None => self.llm() is None,
            },
    {
        self.llm_properties.as_ref()
    }

    /// The signal that cancels the work done for this request: the one
    /// that the context was made with.
    pub fn cancellation_token(&self) -> (token: &tokio_util::sync::CancellationToken)
        ensures
            *token == self.signal(),
    {
        &self.cancellation_token
    }
}

} // verus!
