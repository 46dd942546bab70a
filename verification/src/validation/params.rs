//! The parameters of a violation: what was demanded, and how the default
//! message states it.

use vstd::prelude::*;
use crate::syntax::{LitValue, LitValueView};
use crate::text::{i128_to_string, join_strings, u128_to_string, usize_to_string};
use crate::validator::{lit_value_views, Message, MessageView};

verus! {

/// A violation that can state itself in words.
pub trait ToDefaultMessage {
    /// The text of the default message.
    spec fn default_message(&self) -> Seq<char>;

    /// The default message.
    fn to_default_message(&self) -> (message: String)
        ensures
            message@ == self.default_message(),
    ;
}

/// `format!("{:?}", item)`: the item as its `Debug` implementation writes
/// it. What an implementation writes is its own affair, so the contract
/// says nothing of the text.
#[verifier::external_body]
fn debug_string<T: std::fmt::Debug>(item: &T) -> String {
    format!("{:?}", item)
}

/// A sequence whose number of items is outside its bounds.
#[derive(Debug, PartialEq, Eq)]
pub struct ItemsErrorParams {
    items: Vec<String>,
    items_length: usize,
    min_items: Option<usize>,
    max_items: Option<usize>,
}

impl ItemsErrorParams {
    /// The parameters for `items`, held against the bounds `min_items` and `max_items`.
    pub fn new<T>(items: &[T], min_items: Option<usize>, max_items: Option<usize>) -> (params: Self) where
        T: std::fmt::Debug,

        ensures
            params.spec_items().len() == items@.len(),
            params.spec_items_length() == items@.len(),
            params.spec_min_items() == min_items,
            params.spec_max_items() == max_items,
    {
        let mut texts: Vec<String> = Vec::new();
        let mut i: usize = 0;
        while i < items.len()
            invariant
                i <= items.len(),
                texts@.len() == i,
            decreases items.len() - i,
        {
            texts.push(debug_string(&items[i]));
            i = i + 1;
        }
        Self { items: texts, items_length: items.len(), min_items, max_items }
    }

    /// The items, each as its `Debug` implementation writes it.
    pub closed spec fn spec_items(&self) -> Seq<String> {
        self.items@
    }

    /// The number of items.
    pub closed spec fn spec_items_length(&self) -> usize {
        self.items_length
    }

    /// The least number of items that was allowed, if there was a bound.
    pub closed spec fn spec_min_items(&self) -> Option<usize> {
        self.min_items
    }

    /// The greatest number of items that was allowed, if there was a bound.
    pub closed spec fn spec_max_items(&self) -> Option<usize> {
        self.max_items
    }

    /// The items, each as its `Debug` implementation writes it.
    pub fn items(&self) -> (items: &Vec<String>)
        ensures
            items@ == self.spec_items(),
    {
        &self.items
    }

    /// The number of items.
    pub fn items_length(&self) -> (length: usize)
        ensures
            length == self.spec_items_length(),
    {
        self.items_length
    }

    /// The least number of items that was allowed, if there was a bound.
    pub fn min_items(&self) -> (min_items: Option<usize>)
        ensures
            min_items == self.spec_min_items(),
    {
        self.min_items
    }

    /// The greatest number of items that was allowed, if there was a bound.
    pub fn max_items(&self) -> (max_items: Option<usize>)
        ensures
            max_items == self.spec_max_items(),
    {
        self.max_items
    }
}

impl ToDefaultMessage for ItemsErrorParams {
    /// `items length of [a, b] must be in \`1 <= length <= 3\`, but \`4\`.`,
    /// with each bound written only where there is one.
    open spec fn default_message(&self) -> Seq<char> {
        "items length of ["@ + crate::text::join(crate::text::views(self.spec_items()), ", "@)
            + "] must be in `"@ + (match self.spec_min_items() {
            Some(bound) => crate::text::decimal(bound as nat) + " <= "@,
            None => Seq::empty(),
        }) + "length"@ + (match self.spec_max_items() {
            Some(bound) => " <= "@ + crate::text::decimal(bound as nat),
            None => Seq::empty(),
        }) + "`, but `"@ + crate::text::decimal(self.spec_items_length() as nat) + "`."@
    }

    fn to_default_message(&self) -> (message: String) {
        let mut message = String::from_str("items length of [");
        let joined = join_strings(&self.items, ", ");
        message.append(joined.as_str());
        message.append("] must be in `");
        let ghost head = message@;
        match self.min_items {
            Some(bound) => {
                let digits = usize_to_string(bound);
                message.append(digits.as_str());
                message.append(" <= ");
                assert(message@ =~= head + (crate::text::decimal(bound as nat) + " <= "@));
            },
            None => {
                assert(message@ =~= head + Seq::<char>::empty());
            },
        }
        message.append("length");
        let ghost middle = message@;
        match self.max_items {
            Some(bound) => {
                let digits = usize_to_string(bound);
                message.append(" <= ");
                message.append(digits.as_str());
                assert(message@ =~= middle + (" <= "@ + crate::text::decimal(bound as nat)));
            },
            None => {
                assert(message@ =~= middle + Seq::<char>::empty());
            },
        }
        message.append("`, but `");
        let length = usize_to_string(self.items_length);
        message.append(length.as_str());
        message.append("`.");
        message
    }
}

/// A sequence with more items than allowed.
#[derive(Debug, Clone, Copy, PartialEq, Eq)]
pub struct MaxItemsErrorParams {
    pub max_items: usize,
}

impl MaxItemsErrorParams {
    pub fn new(max_items: usize) -> (params: Self)
        ensures
            params.max_items == max_items,
    {
        Self { max_items }
    }
}

impl ToDefaultMessage for MaxItemsErrorParams {
    open spec fn default_message(&self) -> Seq<char> {
        "the length of the items must be `<= "@ + crate::text::decimal(self.max_items as nat) + "`."@
    }

    fn to_default_message(&self) -> (message: String) {
        let mut message = String::from_str("the length of the items must be `<= ");
        message.append(usize_to_string(self.max_items).as_str());
        message.append("`.");
        message
    }
}

/// A sequence with fewer items than allowed.
#[derive(Debug, Clone, Copy, PartialEq, Eq)]
pub struct MinItemsErrorParams {
    pub min_items: usize,
}

impl MinItemsErrorParams {
    pub fn new(min_items: usize) -> (params: Self)
        ensures
            params.min_items == min_items,
    {
        Self { min_items }
    }
}

impl ToDefaultMessage for MinItemsErrorParams {
    open spec fn default_message(&self) -> Seq<char> {
        "the length of the items must be `>= "@ + crate::text::decimal(self.min_items as nat) + "`."@
    }

    fn to_default_message(&self) -> (message: String) {
        let mut message = String::from_str("the length of the items must be `>= ");
        message.append(usize_to_string(self.min_items).as_str());
        message.append("`.");
        message
    }
}

/// A text with fewer characters than allowed.
#[derive(Debug, Clone, Copy, PartialEq, Eq)]
pub struct MinLengthErrorParams {
    pub min_length: usize,
}

impl MinLengthErrorParams {
    pub fn new(min_length: usize) -> (params: Self)
        ensures
            params.min_length == min_length,
    {
        Self { min_length }
    }
}

impl ToDefaultMessage for MinLengthErrorParams {
    open spec fn default_message(&self) -> Seq<char> {
        bound_message(
            "the length of the value"@,
            ">="@,
            crate::text::decimal(self.min_length as nat),
        )
    }

    fn to_default_message(&self) -> (message: String) {
        bound_text("the length of the value", ">=", usize_to_string(self.min_length))
    }
}

/// A text with more characters than allowed.
#[derive(Debug, Clone, Copy, PartialEq, Eq)]
pub struct MaxLengthErrorParams {
    pub max_length: usize,
}

impl MaxLengthErrorParams {
    pub fn new(max_length: usize) -> (params: Self)
        ensures
            params.max_length == max_length,
    {
        Self { max_length }
    }
}

impl ToDefaultMessage for MaxLengthErrorParams {
    open spec fn default_message(&self) -> Seq<char> {
        bound_message(
            "the length of the value"@,
            "<="@,
            crate::text::decimal(self.max_length as nat),
        )
    }

    fn to_default_message(&self) -> (message: String) {
        bound_text("the length of the value", "<=", usize_to_string(self.max_length))
    }
}

/// An object with fewer properties than allowed.
#[derive(Debug, Clone, Copy, PartialEq, Eq)]
pub struct MinPropertiesErrorParams {
    pub min_properties: usize,
}

impl MinPropertiesErrorParams {
    pub fn new(min_properties: usize) -> (params: Self)
        ensures
            params.min_properties == min_properties,
    {
        Self { min_properties }
    }
}

impl ToDefaultMessage for MinPropertiesErrorParams {
    open spec fn default_message(&self) -> Seq<char> {
        "the size of the properties must be `>= "@ + crate::text::decimal(
            self.min_properties as nat,
        ) + "`."@
    }

    fn to_default_message(&self) -> (message: String) {
        let mut message = String::from_str("the size of the properties must be `>= ");
        message.append(usize_to_string(self.min_properties).as_str());
        message.append("`.");
        message
    }
}

/// An object with more properties than allowed.
#[derive(Debug, Clone, Copy, PartialEq, Eq)]
pub struct MaxPropertiesErrorParams {
    pub max_properties: usize,
}

impl MaxPropertiesErrorParams {
    pub fn new(max_properties: usize) -> (params: Self)
        ensures
            params.max_properties == max_properties,
    {
        Self { max_properties }
    }
}

impl ToDefaultMessage for MaxPropertiesErrorParams {
    open spec fn default_message(&self) -> Seq<char> {
        "the size of the properties must be `<= "@ + crate::text::decimal(
            self.max_properties as nat,
        ) + "`."@
    }

    fn to_default_message(&self) -> (message: String) {
        let mut message = String::from_str("the size of the properties must be `<= ");
        message.append(usize_to_string(self.max_properties).as_str());
        message.append("`.");
        message
    }
}

/// A number that is no multiple of the divisor. The divisor is held by its
/// sign and its magnitude, so that every integer type fits.
#[derive(Debug, Clone, Copy, PartialEq, Eq)]
pub struct MultipleOfErrorParams {
    pub negative: bool,
    pub magnitude: u128,
}

impl MultipleOfErrorParams {
    /// The divisor.
    pub open spec fn multiple_of(&self) -> int {
        if self.negative {
            -(self.magnitude as int)
        } else {
            self.magnitude as int
        }
    }

    /// The parameters for a divisor of a signed type.
    pub fn new(multiple_of: i128) -> (params: Self)
        ensures
            params.multiple_of() == multiple_of,
            params.negative == (multiple_of < 0),
    {
        if multiple_of < 0 {
            Self { negative: true, magnitude: (-(multiple_of + 1)) as u128 + 1 }
        } else {
            Self { negative: false, magnitude: multiple_of as u128 }
        }
    }

    /// The parameters for a divisor of an unsigned type.
    pub fn from_unsigned(multiple_of: u128) -> (params: Self)
        ensures
            params.multiple_of() == multiple_of,
            !params.negative,
    {
        Self { negative: false, magnitude: multiple_of }
    }
}

impl ToDefaultMessage for MultipleOfErrorParams {
    open spec fn default_message(&self) -> Seq<char> {
        "the value must be multiple of `"@ + crate::text::signed_decimal(self.multiple_of()) + "`."@
    }

    fn to_default_message(&self) -> (message: String) {
        let mut message = String::from_str("the value must be multiple of `");
        let ghost head = message@;
        if self.negative && self.magnitude != 0 {
            proof {
                reveal_strlit("-");
            }
            message.append("-");
        }
        message.append(u128_to_string(self.magnitude).as_str());
        assert(message@ =~= head + crate::text::signed_decimal(self.multiple_of()));
        message.append("`.");
        message
    }
}

/// A text that does not match the pattern.
#[derive(Debug, PartialEq, Eq)]
pub struct PatternErrorParams {
    pub pattern: String,
}

impl PatternErrorParams {
    /// The parameters for the regular expression `pattern`.
    pub fn new(pattern: &regex::Regex) -> (params: Self)
        ensures
            params.pattern@ == crate::validation::string::regex_pattern(*pattern),
    {
        Self { pattern: crate::validation::string::regex_as_str(pattern) }
    }
}

impl ToDefaultMessage for PatternErrorParams {
    open spec fn default_message(&self) -> Seq<char> {
        "the value must match the pattern of \""@ + self.pattern@ + "\"."@
    }

    fn to_default_message(&self) -> (message: String) {
        let mut message = String::from_str("the value must match the pattern of \"");
        message.append(self.pattern.as_str());
        message.append("\".");
        message
    }
}

/// How a literal is written in a message: a string as it is, a number in
/// decimal, and a literal of another kind as it was written.
pub open spec fn literal_text(literal: LitValueView) -> Seq<char> {
    match literal {
        LitValueView::Str(text) => text,
        LitValueView::Int(i) => crate::text::signed_decimal(i),
        LitValueView::Float(text) => text,
        LitValueView::Bool(b) => if b {
            "true"@
        } else {
            "false"@
        },
        LitValueView::Char(c) => seq![c],
        LitValueView::Verbatim(text) => text,
    }
}

/// How each of the literals is written.
pub open spec fn literal_texts(literals: Seq<LitValueView>) -> Seq<Seq<char>> {
    Seq::new(literals.len(), |i: int| literal_text(literals[i]))
}

/// `String::from` of a `char`: the string that holds this one character.
#[verifier::external_body]
fn char_to_string(c: char) -> (text: String)
    ensures
        text@ == seq![c],
{
    String::from(c)
}

/// `Itertools::join` over an iterator of strings: every item as its
/// `Display` writes it, which for a string is the string, with `sep` between
/// each two neighbours.
#[verifier::external_body]
fn join_display(items: &Vec<String>, sep: &str) -> (joined: String)
    ensures
        joined@ == crate::text::join(crate::text::views(items@), sep@),
{
    itertools::Itertools::join(&mut items.iter(), sep)
}

fn literal_to_string(literal: &LitValue) -> (text: String)
    ensures
        text@ == literal_text(literal@),
{
    match literal {
        LitValue::Str(text) => text.clone(),
        LitValue::Int(i) => i128_to_string(*i),
        LitValue::Float(text) => text.clone(),
        LitValue::Bool(b) => {
            if *b {
                String::from_str("true")
            } else {
                String::from_str("false")
            }
        },
        LitValue::Char(c) => char_to_string(*c),
        LitValue::Verbatim(text) => text.clone(),
    }
}

/// A value that is none of the listed ones.
#[derive(Debug, PartialEq, Eq)]
pub struct EnumerateErrorParams {
    pub enumerate: Vec<LitValue>,
}

impl EnumerateErrorParams {
    /// The parameters for the members `enumerate`.
    pub fn new(enumerate: &[LitValue]) -> (params: Self)
        ensures
            lit_value_views(params.enumerate@) == lit_value_views(enumerate@),
    {
        let mut members: Vec<LitValue> = Vec::new();
        let mut i: usize = 0;
        while i < enumerate.len()
            invariant
                i <= enumerate.len(),
                members.len() == i,
                forall|j: int| 0 <= j < i ==> members@[j]@ == enumerate@[j]@,
            decreases enumerate.len() - i,
        {
            members.push(enumerate[i].clone());
            i = i + 1;
        }
        assert(lit_value_views(members@) =~= lit_value_views(enumerate@));
        Self { enumerate: members }
    }
}

impl ToDefaultMessage for EnumerateErrorParams {
    open spec fn default_message(&self) -> Seq<char> {
        "the value must be in ["@ + crate::text::join(
            literal_texts(lit_value_views(self.enumerate@)),
            ", "@,
        ) + "]."@
    }

    fn to_default_message(&self) -> (message: String) {
        let mut texts: Vec<String> = Vec::new();
        let mut i: usize = 0;
        while i < self.enumerate.len()
            invariant
                i <= self.enumerate.len(),
                texts.len() == i,
                forall|j: int| 0 <= j < i ==> texts@[j]@ == literal_text(self.enumerate@[j]@),
            decreases self.enumerate.len() - i,
        {
            texts.push(literal_to_string(&self.enumerate[i]));
            i = i + 1;
        }
        assert(crate::text::views(texts@) =~= literal_texts(lit_value_views(self.enumerate@)));
        let mut message = String::from_str("the value must be in [");
        message.append(join_display(&texts, ", ").as_str());
        message.append("].");
        message
    }
}

/// What a check demanded of the value that violated it.
#[derive(Debug, PartialEq, Eq)]
pub enum Params {
    Minimum(i128),
    ExclusiveMinimum(i128),
    Maximum(i128),
    ExclusiveMaximum(i128),
    MinLength(MinLengthErrorParams),
    MaxLength(MaxLengthErrorParams),
    MinItems(MinItemsErrorParams),
    MaxItems(MaxItemsErrorParams),
    MultipleOf(MultipleOfErrorParams),
    Pattern(PatternErrorParams),
    Enumerate(EnumerateErrorParams),
    /// Two items are equal: the first pair, by the later item and then by the earlier.
    UniqueItems { first: usize, second: usize },
    /// The value is not of a kind that the check can be held against.
    Mismatch,
}

pub ghost enum ParamsView {
    Minimum(int),
    ExclusiveMinimum(int),
    Maximum(int),
    ExclusiveMaximum(int),
    MinLength(nat),
    MaxLength(nat),
    MinItems(nat),
    MaxItems(nat),
    MultipleOf(int),
    Pattern(Seq<char>),
    Enumerate(Seq<LitValueView>),
    UniqueItems { first: nat, second: nat },
    Mismatch,
}

impl View for Params {
    type V = ParamsView;

    open spec fn view(&self) -> ParamsView {
        match self {
            Params::Minimum(bound) => ParamsView::Minimum(*bound as int),
            Params::ExclusiveMinimum(bound) => ParamsView::ExclusiveMinimum(*bound as int),
            Params::Maximum(bound) => ParamsView::Maximum(*bound as int),
            Params::ExclusiveMaximum(bound) => ParamsView::ExclusiveMaximum(*bound as int),
            Params::MinLength(params) => ParamsView::MinLength(params.min_length as nat),
            Params::MaxLength(params) => ParamsView::MaxLength(params.max_length as nat),
            Params::MinItems(params) => ParamsView::MinItems(params.min_items as nat),
            Params::MaxItems(params) => ParamsView::MaxItems(params.max_items as nat),
            Params::MultipleOf(params) => ParamsView::MultipleOf(params.multiple_of()),
            Params::Pattern(params) => ParamsView::Pattern(params.pattern@),
            Params::Enumerate(params) => ParamsView::Enumerate(lit_value_views(params.enumerate@)),
            Params::UniqueItems { first, second } => ParamsView::UniqueItems {
                first: *first as nat,
                second: *second as nat,
            },
            Params::Mismatch => ParamsView::Mismatch,
        }
    }
}

/// The default message of a bound on a number or a length: `subject`,
/// then the relation and the bound between backticks.
pub open spec fn bound_message(subject: Seq<char>, relation: Seq<char>, bound: Seq<char>) -> Seq<
    char,
> {
    subject + " must be `"@ + relation + " "@ + bound + "`."@
}

fn bound_text(subject: &str, relation: &str, bound: String) -> (message: String)
    ensures
        message@ == bound_message(subject@, relation@, bound@),
{
    let mut message = String::from_str(subject);
    message.append(" must be `");
    message.append(relation);
    message.append(" ");
    message.append(bound.as_str());
    message.append("`.");
    message
}

impl ParamsView {
    /// The default message of a violation with these parameters.
    pub open spec fn message(self) -> Seq<char> {
        match self {
            ParamsView::Minimum(bound) => bound_message(
                "the number"@,
                ">="@,
                crate::text::signed_decimal(bound),
            ),
            ParamsView::ExclusiveMinimum(bound) => bound_message(
                "the number"@,
                ">"@,
                crate::text::signed_decimal(bound),
            ),
            ParamsView::Maximum(bound) => bound_message(
                "the number"@,
                "<="@,
                crate::text::signed_decimal(bound),
            ),
            ParamsView::ExclusiveMaximum(bound) => bound_message(
                "the number"@,
                "<"@,
                crate::text::signed_decimal(bound),
            ),
            ParamsView::MinLength(bound) => bound_message(
                "the length of the value"@,
                ">="@,
                crate::text::decimal(bound),
            ),
            ParamsView::MaxLength(bound) => bound_message(
                "the length of the value"@,
                "<="@,
                crate::text::decimal(bound),
            ),
            ParamsView::MinItems(bound) => "the length of the items must be `>= "@
                + crate::text::decimal(bound) + "`."@,
            ParamsView::MaxItems(bound) => "the length of the items must be `<= "@
                + crate::text::decimal(bound) + "`."@,
            ParamsView::MultipleOf(divisor) => "the value must be multiple of `"@
                + crate::text::signed_decimal(divisor) + "`."@,
            ParamsView::Pattern(pattern) => "the value must match the pattern of \""@ + pattern
                + "\"."@,
            ParamsView::Enumerate(members) => "the value must be in ["@ + crate::text::join(
                literal_texts(members),
                ", "@,
            ) + "]."@,
            ParamsView::UniqueItems { .. } => "items must be unique."@,
            ParamsView::Mismatch => "the value is not of the declared type."@,
        }
    }
}

impl ToDefaultMessage for Params {
    open spec fn default_message(&self) -> Seq<char> {
        self@.message()
    }

    fn to_default_message(&self) -> (message: String) {
        match self {
            Params::Minimum(bound) => bound_text("the number", ">=", i128_to_string(*bound)),
            Params::ExclusiveMinimum(bound) => bound_text(
                "the number",
                ">",
                i128_to_string(*bound),
            ),
            Params::Maximum(bound) => bound_text("the number", "<=", i128_to_string(*bound)),
            Params::ExclusiveMaximum(bound) => bound_text(
                "the number",
                "<",
                i128_to_string(*bound),
            ),
            Params::MinLength(params) => params.to_default_message(),
            Params::MaxLength(params) => params.to_default_message(),
            Params::MinItems(params) => params.to_default_message(),
            Params::MaxItems(params) => params.to_default_message(),
            Params::MultipleOf(params) => params.to_default_message(),
            Params::Pattern(params) => params.to_default_message(),
            Params::Enumerate(params) => params.to_default_message(),
            Params::UniqueItems { .. } => String::from_str("items must be unique."),
            Params::Mismatch => String::from_str("the value is not of the declared type."),
        }
    }
}

impl Clone for PatternErrorParams {
    fn clone(&self) -> (copy: Self)
        ensures
            copy.pattern@ == self.pattern@,
    {
        Self { pattern: self.pattern.clone() }
    }
}

impl Clone for EnumerateErrorParams {
    fn clone(&self) -> (copy: Self)
        ensures
            lit_value_views(copy.enumerate@) == lit_value_views(self.enumerate@),
    {
        Self::new(self.enumerate.as_slice())
    }
}

impl Clone for Params {
    fn clone(&self) -> (copy: Self)
        ensures
            copy@ == self@,
    {
        match self {
            Params::Minimum(bound) => Params::Minimum(*bound),
            Params::ExclusiveMinimum(bound) => Params::ExclusiveMinimum(*bound),
            Params::Maximum(bound) => Params::Maximum(*bound),
            Params::ExclusiveMaximum(bound) => Params::ExclusiveMaximum(*bound),
            Params::MinLength(params) => Params::MinLength(*params),
            Params::MaxLength(params) => Params::MaxLength(*params),
            Params::MinItems(params) => Params::MinItems(*params),
            Params::MaxItems(params) => Params::MaxItems(*params),
            Params::MultipleOf(params) => Params::MultipleOf(*params),
            Params::Pattern(params) => Params::Pattern(params.clone()),
            Params::Enumerate(params) => Params::Enumerate(params.clone()),
            Params::UniqueItems { first, second } => Params::UniqueItems {
                first: *first,
                second: *second,
            },
            Params::Mismatch => Params::Mismatch,
        }
    }
}

/// One check that a value failed: what was demanded, and where the text of
/// the message comes from.
#[derive(Debug, PartialEq, Eq)]
pub struct Violation {
    pub params: Params,
    pub message: Message,
}

pub ghost struct ViolationView {
    pub params: ParamsView,
    pub message: MessageView,
}

impl View for Violation {
    type V = ViolationView;

    open spec fn view(&self) -> ViolationView {
        ViolationView { params: self.params@, message: self.message@ }
    }
}

impl ViolationView {
    /// The text of the message, where the library can write it: the
    /// default text, or the literal that overrides it. Nothing where the
    /// declaration names a message function.
    pub open spec fn message_text(self) -> Option<Seq<char>> {
        match self.message {
            MessageView::Default => Some(self.params.message()),
            MessageView::Literal(text) => Some(text),
            MessageView::Function(_) => None,
        }
    }
}

impl Violation {
    /// The text of the message, where the library can write it: the
    /// default text, or the literal that overrides it. Nothing where the
    /// declaration names a message function: the caller owes the call, with
    /// `params` as the argument.
    pub open spec fn message_text(&self) -> Option<Seq<char>> {
        self@.message_text()
    }

    /// The text of the message, where the library can write it.
    pub fn message(&self) -> (text: Option<String>)
        ensures
            text is Some <==> self.message_text() is Some,
            text matches Some(found) ==> self.message_text() == Some(found@),
    {
        match &self.message {
            Message::Default => Some(self.params.to_default_message()),
            Message::Literal(text) => Some(text.clone()),
            Message::Function(_) => None,
        }
    }
}

} // verus!
