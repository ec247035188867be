//! Bitmap templates and the engine that encodes an operation against one.
//!
//! A template maps positions to fields. A field is a leaf (a parser, a length
//! envelope and an optional padding character) or a group of leaves, one level
//! deep. Encoding walks the positions in ascending order, asks each leaf's parser
//! for its value, checks the value against the leaf's maximum length, pads it to
//! the leaf's minimum length and frames it with a two-digit position and a
//! two-digit length. Lengths are counted in UTF-8 bytes. A group's leaves are
//! framed the same way into a buffer that is then framed under the group's own
//! position.
use std::collections::HashMap;

use vstd::prelude::*;

use crate::bank::stfs_parsers;
use crate::operation::{Operation, RequestType};
use crate::payment::Payment;
use crate::text::{byte_len, byte_length, decimal, decimal_string, join, pad_left, pad_string, two_digits};
use crate::{Failure, GatewayError, GatewayResult};

pub mod iso8853;

verus! {

broadcast use vstd::std_specs::hash::group_hash_axioms;

/// The message dialects.
#[derive(Copy, Clone, Debug, PartialEq, Eq, Structural)]
pub enum MessagingSpecification {
    /// Bitmap messages: every field framed by its position and its length.
    Iso8853,
    /// Fixed-layout messages; no encoder exists for them yet.
    Apacs,
}

/// The ways a field's value can be extracted from an operation.
#[derive(Copy, Clone, Debug, PartialEq, Eq, Structural)]
pub enum FieldParser {
    /// The constant transaction identifier of the bitmap dialect.
    TransactionIdentifier,
    /// The constant transaction identifier that STFS expects instead.
    StfsTransactionIdentifier,
    MerchantID,
    RequestType,
    AccountNumber,
    Network,
    ExpiryDate,
    CVV,
    TransactionAmount,
    BillingName,
    Currency,
}

/// A single encodable field.
#[derive(Copy, Clone, Debug)]
pub struct Leaf {
    pub parser: FieldParser,
    /// The length, in UTF-8 bytes, that padding brings a shorter value up to.
    pub min_length: usize,
    /// The greatest length, in UTF-8 bytes, a value may have.
    pub max_length: usize,
    /// The character a value is left-padded with; no padding where absent.
    pub padding_char: Option<char>,
}

/// What a template holds at one position.
#[derive(Clone, Debug)]
pub enum BitField {
    Single(Leaf),
    /// A group of leaves, rendered as one framed sub-message.
    Group(HashMap<usize, Leaf>),
}

impl From<Leaf> for BitField {
    fn from(leaf: Leaf) -> (r: BitField)
        ensures
            r@ == FieldLayout::Single(leaf),
    {
        BitField::Single(leaf)
    }
}

impl vstd::std_specs::convert::FromSpecImpl<Leaf> for BitField {
    open spec fn obeys_from_spec() -> bool {
        true
    }

    open spec fn from_spec(v: Leaf) -> BitField {
        BitField::Single(v)
    }
}

impl From<HashMap<usize, Leaf>> for BitField {
    fn from(group: HashMap<usize, Leaf>) -> (r: BitField)
        ensures
            r@ == FieldLayout::Group(group@),
    {
        BitField::Group(group)
    }
}

impl vstd::std_specs::convert::FromSpecImpl<HashMap<usize, Leaf>> for BitField {
    open spec fn obeys_from_spec() -> bool {
        true
    }

    open spec fn from_spec(v: HashMap<usize, Leaf>) -> BitField {
        BitField::Group(v)
    }
}

/// A template: the field at each position of a message.
pub type BitMap = HashMap<usize, BitField>;

/// The abstract value of a [`BitField`].
pub enum FieldLayout {
    Single(Leaf),
    Group(Map<usize, Leaf>),
}

impl View for BitField {
    type V = FieldLayout;

    open spec fn view(&self) -> FieldLayout {
        match self {
            BitField::Single(leaf) => FieldLayout::Single(*leaf),
            BitField::Group(group) => FieldLayout::Group(group@),
        }
    }
}

/// The abstract value of a template.
pub open spec fn layout(t: Map<usize, BitField>) -> Map<usize, FieldLayout> {
    t.map_values(|f: BitField| f@)
}

/// The highest position a template may use; positions start at 1.
pub const MAX_POSITION: usize = 99;

/// Whether every position of `m` lies in `1..=MAX_POSITION`.
pub open spec fn positions_in_range<V>(m: Map<usize, V>) -> bool {
    forall|p: usize| #[trigger] m.contains_key(p) ==> 1 <= p <= MAX_POSITION
}

/// Whether `t` is a template the engine can walk: every position, top-level
/// and within groups, lies in `1..=MAX_POSITION`.
pub open spec fn template_wf(t: Map<usize, FieldLayout>) -> bool {
    &&& positions_in_range(t)
    &&& forall|p: usize| #[trigger] t.contains_key(p) && t[p] is Group ==> positions_in_range(
        t[p]->Group_0,
    )
}

/// What parser `p` extracts from `op`: a value, nothing (the field is left
/// out), or the failure that stops encoding.
pub open spec fn parsed(p: FieldParser, op: Operation) -> Result<Option<Seq<char>>, Failure> {
    match p {
        FieldParser::TransactionIdentifier => Ok(Some("abc"@)),
        FieldParser::StfsTransactionIdentifier => Ok(Some("123"@)),
        FieldParser::MerchantID => match op.merchant {
            Some(m) => Ok(Some(m.mid@)),
            None => Err(Failure::Missing("merchant"@)),
        },
        FieldParser::RequestType => match op.request_type {
            Some(RequestType::Auth) => Ok(Some("AUTH"@)),
            Some(RequestType::Refund) => Err(Failure::Field("unsupported request type: Refund"@)),
            Some(RequestType::AccountCheck) => Err(
                Failure::Field("unsupported request type: AccountCheck"@),
            ),
            None => Err(Failure::Missing("request type"@)),
        },
        FieldParser::AccountNumber => match op.payment {
            Some(Payment::Card { pan, .. }) => Ok(Some(pan@)),
            Some(Payment::Account { account_number, .. }) => Ok(Some(account_number@)),
            None => Err(Failure::Missing("payment"@)),
        },
        FieldParser::Network => match op.payment {
            Some(Payment::Card { network, .. }) => if network@.len() == 0 {
                Err(Failure::Field("card network is empty"@))
            } else {
                Ok(Some(seq![network@[0]]))
            },
            Some(Payment::Account { .. }) => Ok(None),
            None => Err(Failure::Missing("payment"@)),
        },
        FieldParser::ExpiryDate => match op.payment {
            Some(Payment::Card { expiry_date, .. }) => Ok(Some(crate::text::without(expiry_date@, '/'))),
            Some(Payment::Account { .. }) => Ok(None),
            None => Err(Failure::Missing("payment"@)),
        },
        FieldParser::CVV => match op.payment {
            Some(Payment::Card { security_code, .. }) => Ok(Some(security_code@)),
            Some(Payment::Account { .. }) => Ok(None),
            None => Err(Failure::Missing("payment"@)),
        },
        FieldParser::TransactionAmount => match op.transaction {
            Some(t) => Ok(Some(decimal(t.amount as nat))),
            None => Err(Failure::Missing("transaction"@)),
        },
        FieldParser::BillingName => match op.transaction {
            Some(t) => Ok(Some(t.billingname@)),
            None => Err(Failure::Missing("transaction"@)),
        },
        FieldParser::Currency => match op.transaction {
            Some(t) => Ok(Some(crate::currency::currency_code(t.currency))),
            None => Err(Failure::Missing("transaction"@)),
        },
    }
}

/// The abstract value of a parser's result.
pub open spec fn field_result(r: GatewayResult<Option<String>>) -> Result<
    Option<Seq<char>>,
    Failure,
> {
    match r {
        Ok(Some(s)) => Ok(Some(s@)),
        Ok(None) => Ok(None),
        Err(e) => Err(e@),
    }
}

impl FieldParser {
    /// Runs this parser on `op`.
    pub fn parse(&self, op: &Operation) -> (r: GatewayResult<Option<String>>)
        ensures
            field_result(r) == parsed(*self, *op),
    {
        match self {
            FieldParser::TransactionIdentifier => iso8853::TransactionIdentifier(op),
            FieldParser::StfsTransactionIdentifier => stfs_parsers::TransactionIdentifier(op),
            FieldParser::MerchantID => iso8853::MerchantID(op),
            FieldParser::RequestType => iso8853::RequestType(op),
            FieldParser::AccountNumber => iso8853::AccountNumber(op),
            FieldParser::Network => iso8853::Network(op),
            FieldParser::ExpiryDate => iso8853::ExpiryDate(op),
            FieldParser::CVV => iso8853::CVV(op),
            FieldParser::TransactionAmount => iso8853::TransactionAmount(op),
            FieldParser::BillingName => iso8853::BillingName(op),
            FieldParser::Currency => iso8853::Currency(op),
        }
    }
}

/// `v` padded as `padding` asks: to its length with its character, if any.
pub open spec fn padded_by(v: Seq<char>, padding: Option<(usize, char)>) -> Seq<char> {
    match padding {
        Some((len, c)) => pad_left(v, len as nat, c),
        None => v,
    }
}

/// The padding a leaf asks for.
pub open spec fn leaf_padding(leaf: Leaf) -> Option<(usize, char)> {
    match leaf.padding_char {
        Some(c) => Some((leaf.min_length, c)),
        None => None,
    }
}

/// `data` framed for position `pos`: two digits of position, two digits of its
/// length in bytes, the data.
pub open spec fn framed(pos: nat, data: Seq<char>) -> Seq<char> {
    two_digits(pos) + two_digits(byte_len(data)) + data
}

/// How an error names a field: its position, or `outer.inner` within a group.
pub open spec fn field_label(outer: Option<usize>, pos: usize) -> Seq<char> {
    match outer {
        Some(o) => decimal(o as nat) + "."@ + decimal(pos as nat),
        None => decimal(pos as nat),
    }
}

/// The message that rejects `v` for taking more than `max` bytes at the field `label`.
pub open spec fn overlength_message(v: Seq<char>, label: Seq<char>, max: nat) -> Seq<char> {
    "value '"@ + v + "' too long ("@ + decimal(byte_len(v)) + ") for bitfield '"@ + label + "' ("@
        + decimal(max) + ")"@
}

/// The rendering of the leaf at `pos` (within group `outer`, if any).
pub open spec fn leaf_output(leaf: Leaf, op: Operation, outer: Option<usize>, pos: usize) -> Result<
    Seq<char>,
    Failure,
> {
    match parsed(leaf.parser, op) {
        Err(e) => Err(e),
        Ok(None) => Ok(Seq::empty()),
        Ok(Some(v)) => if byte_len(v) > leaf.max_length {
            Err(Failure::Encoding(overlength_message(v, field_label(outer, pos), leaf.max_length as nat)))
        } else {
            Ok(framed(pos as nat, padded_by(v, leaf_padding(leaf))))
        },
    }
}

/// `first` followed by `rest`, or the first failure of the two.
pub open spec fn followed_by(first: Result<Seq<char>, Failure>, rest: Result<Seq<char>, Failure>) -> Result<
    Seq<char>,
    Failure,
> {
    match first {
        Err(e) => Err(e),
        Ok(s) => match rest {
            Err(e) => Err(e),
            Ok(t) => Ok(s + t),
        },
    }
}

/// The rendering of the leaves of group `outer` from position `p` on.
pub open spec fn group_output(g: Map<usize, Leaf>, op: Operation, outer: usize, p: int) -> Result<
    Seq<char>,
    Failure,
>
    decreases MAX_POSITION + 1 - p,
{
    if p < 1 || p > MAX_POSITION {
        Ok(Seq::empty())
    } else {
        let here = if g.contains_key(p as usize) {
            leaf_output(g[p as usize], op, Some(outer), p as usize)
        } else {
            Ok(Seq::empty())
        };
        followed_by(here, group_output(g, op, outer, p + 1))
    }
}

/// The rendering of the field at `pos`.
pub open spec fn field_output(f: FieldLayout, op: Operation, pos: usize) -> Result<
    Seq<char>,
    Failure,
> {
    match f {
        FieldLayout::Single(leaf) => leaf_output(leaf, op, None, pos),
        FieldLayout::Group(g) => match group_output(g, op, pos, 1) {
            Ok(s) => Ok(framed(pos as nat, s)),
            Err(e) => Err(e),
        },
    }
}

/// The rendering of the fields of `t` from position `p` on.
pub open spec fn fields_output(t: Map<usize, FieldLayout>, op: Operation, p: int) -> Result<
    Seq<char>,
    Failure,
>
    decreases MAX_POSITION + 1 - p,
{
    if p < 1 || p > MAX_POSITION {
        Ok(Seq::empty())
    } else {
        let here = if t.contains_key(p as usize) {
            field_output(t[p as usize], op, p as usize)
        } else {
            Ok(Seq::empty())
        };
        followed_by(here, fields_output(t, op, p + 1))
    }
}

/// The message that encoding `op` against template `t` yields, or the first failure.
pub open spec fn encoded(t: Map<usize, FieldLayout>, op: Operation) -> Result<Seq<char>, Failure> {
    fields_output(t, op, 1)
}

/// `done` followed by what `rest` renders.
pub open spec fn after(done: Seq<char>, rest: Result<Seq<char>, Failure>) -> Result<
    Seq<char>,
    Failure,
> {
    match rest {
        Ok(s) => Ok(done + s),
        Err(e) => Err(e),
    }
}

/// How rendering treats one field: its position, and the padding it asks for.
pub struct EncodingContext {
    pub position: Option<usize>,
    pub padding: Option<(usize, char)>,
}

/// Applies the padding that `ctx` asks for.
pub fn string_field(data: &mut String, ctx: &EncodingContext)
    ensures
        final(data)@ == padded_by(old(data)@, ctx.padding),
{
    if let Some((length, pad)) = ctx.padding {
        pad_string(data, length, pad);
    }
}

/// Encodes `op` against `template`.
fn encode(op: &Operation, template: &BitMap) -> (r: GatewayResult<String>)
    requires
        template_wf(layout(template@)),
    ensures
        crate::text_result(r) == encoded(layout(template@), *op),
{
    let mut output = String::new();
    match format_fields(op, template, &mut output) {
        Ok(()) => {
            assert(output@ =~= Seq::<char>::empty() + output@);
            Ok(output)
        },
        Err(e) => Err(e),
    }
}

/// Renders the leaf at `pos` (within group `outer`, if any).
fn format_leaf(op: &Operation, leaf: &Leaf, outer: Option<usize>, pos: usize) -> (r: GatewayResult<
    String,
>)
    ensures
        crate::text_result(r) == leaf_output(*leaf, *op, outer, pos),
{
    match leaf.parser.parse(op) {
        Err(e) => Err(e),
        Ok(None) => Ok(String::new()),
        Ok(Some(mut data)) => {
            let len = byte_length(data.as_str());
            if len > leaf.max_length {
                Err(GatewayError::EncodingError(overlength_text(&data, len, outer, pos, leaf.max_length)))
            } else {
                let padding = match leaf.padding_char {
                    Some(c) => Some((leaf.min_length, c)),
                    None => None,
                };
                iso8853::iso8853_string_field(&mut data, EncodingContext { position: Some(pos), padding });
                Ok(data)
            }
        },
    }
}

/// The text of an overlength error.
fn overlength_text(data: &String, len: usize, outer: Option<usize>, pos: usize, max: usize) -> (r:
    String)
    requires
        len == byte_len(data@),
    ensures
        r@ == overlength_message(data@, field_label(outer, pos), max as nat),
{
    let label = match outer {
        Some(o) => join(join(decimal_string(o as u64).as_str(), ".").as_str(), decimal_string(pos as u64).as_str()),
        None => decimal_string(pos as u64),
    };
    let r = join("value '", data.as_str());
    let r = join(r.as_str(), "' too long (");
    let r = join(r.as_str(), decimal_string(len as u64).as_str());
    let r = join(r.as_str(), ") for bitfield '");
    let r = join(r.as_str(), label.as_str());
    let r = join(r.as_str(), "' (");
    let r = join(r.as_str(), decimal_string(max as u64).as_str());
    join(r.as_str(), ")")
}

/// Renders the leaves of group `outer` in ascending position order.
fn format_group(op: &Operation, group: &HashMap<usize, Leaf>, outer: usize) -> (r: GatewayResult<
    String,
>)
    requires
        positions_in_range(group@),
    ensures
        crate::text_result(r) == group_output(group@, *op, outer, 1),
{
    let mut nested = String::new();
    let mut pos: usize = 1;
    while pos <= MAX_POSITION
        invariant
            1 <= pos <= MAX_POSITION + 1,
            group_output(group@, *op, outer, 1) == after(nested@, group_output(group@, *op, outer, pos as int)),
        decreases MAX_POSITION + 1 - pos,
    {
        let here = match group.get(&pos) {
            Some(leaf) => format_leaf(op, leaf, Some(outer), pos),
            None => Ok(String::new()),
        };
        match here {
            Err(e) => {
                return Err(e);
            },
            Ok(s) => {
                let ghost before = nested@;
                nested = join(nested.as_str(), s.as_str());
                proof {
                    let rest = group_output(group@, *op, outer, pos as int + 1);
                    if rest is Ok {
                        assert(before + (s@ + rest->Ok_0) =~= (before + s@) + rest->Ok_0);
                    }
                }
            },
        }
        pos = pos + 1;
    }
    assert(nested@ + Seq::<char>::empty() =~= nested@);
    Ok(nested)
}

/// Renders the field `field` at `pos`.
fn format_field(op: &Operation, field: &BitField, pos: usize) -> (r: GatewayResult<String>)
    requires
        field is Group ==> positions_in_range(field->Group_0@),
    ensures
        crate::text_result(r) == field_output(field@, *op, pos),
{
    match field {
        BitField::Single(leaf) => format_leaf(op, leaf, None, pos),
        BitField::Group(group) => {
            let mut nested = format_group(op, group, pos)?;
            iso8853::iso8853_string_field(&mut nested, EncodingContext { position: Some(pos), padding: None });
            Ok(nested)
        },
    }
}

/// Appends to `output` the rendering of every field of `template`, in ascending position order.
fn format_fields(op: &Operation, template: &BitMap, output: &mut String) -> (r: GatewayResult<()>)
    requires
        template_wf(layout(template@)),
    ensures
        match encoded(layout(template@), *op) {
            Ok(s) => r is Ok && final(output)@ == old(output)@ + s,
            Err(e) => r is Err && r->Err_0@ == e,
        },
        final(output)@.len() >= old(output)@.len(),
        final(output)@.subrange(0, old(output)@.len() as int) == old(output)@,
{
    let ghost start = output@;
    let ghost t = layout(template@);
    let mut pos: usize = 1;
    while pos <= MAX_POSITION
        invariant
            1 <= pos <= MAX_POSITION + 1,
            t == layout(template@),
            template_wf(t),
            start == old(output)@,
            output@.len() >= start.len(),
            output@.subrange(0, start.len() as int) == start,
            encoded(t, *op) == after(output@.subrange(start.len() as int, output@.len() as int), fields_output(t, *op, pos as int)),
        decreases MAX_POSITION + 1 - pos,
    {
        let ghost done = output@.subrange(start.len() as int, output@.len() as int);
        let here = match template.get(&pos) {
            Some(field) => {
                assert(t.contains_key(pos) && t[pos] == field@);
                format_field(op, field, pos)
            },
            None => Ok(String::new()),
        };
        match here {
            Err(e) => {
                return Err(e);
            },
            Ok(s) => {
                let ghost before = output@;
                output.append(s.as_str());
                proof {
                    assert(output@.subrange(0, start.len() as int) =~= start);
                    assert(output@.subrange(start.len() as int, output@.len() as int) =~= done + s@);
                    let rest = fields_output(t, *op, pos as int + 1);
                    if rest is Ok {
                        assert(done + (s@ + rest->Ok_0) =~= (done + s@) + rest->Ok_0);
                    }
                }
            },
        }
        pos = pos + 1;
    }
    proof {
        let done = output@.subrange(start.len() as int, output@.len() as int);
        assert(done + Seq::<char>::empty() =~= done);
        assert(output@ =~= start + done);
    }
    Ok(())
}

/// The template of dialect `s`, where it has one.
pub open spec fn dialect_template(s: MessagingSpecification) -> Option<Map<usize, FieldLayout>> {
    match s {
        MessagingSpecification::Iso8853 => Some(iso8853::iso8853_layout()),
        MessagingSpecification::Apacs => None,
    }
}

/// The message of the failure for a dialect that has no encoder.
pub open spec fn unsupported_dialect_message() -> Seq<char> {
    "the APACS dialect has no encoder"@
}

/// What dialect `s` makes of `op` under template `t`.
pub open spec fn dialect_output(
    s: MessagingSpecification,
    t: Map<usize, FieldLayout>,
    op: Operation,
) -> Result<Seq<char>, Failure> {
    match s {
        MessagingSpecification::Iso8853 => encoded(t, op),
        MessagingSpecification::Apacs => Err(Failure::Unsupported(unsupported_dialect_message())),
    }
}

/// `t` with the parser of its leaf at `pos` replaced by `parser`; `t` itself
/// where `pos` holds no leaf.
pub open spec fn with_parser(t: Map<usize, FieldLayout>, pos: usize, parser: FieldParser) -> Map<
    usize,
    FieldLayout,
> {
    if t.contains_key(pos) && t[pos] is Single {
        let old_leaf = t[pos]->Single_0;
        t.insert(pos, FieldLayout::Single(Leaf { parser, ..old_leaf }))
    } else {
        t
    }
}

fn unsupported_dialect() -> (e: GatewayError)
    ensures
        e@ == Failure::Unsupported(unsupported_dialect_message()),
{
    GatewayError::Unsupported(String::from_str("the APACS dialect has no encoder"))
}

impl MessagingSpecification {
    /// Encodes `op` against this dialect's own template.
    pub fn encode_request(&self, op: &Operation) -> (r: GatewayResult<String>)
        ensures
            crate::text_result(r) == match dialect_template(*self) {
                Some(t) => encoded(t, *op),
                None => Err(Failure::Unsupported(unsupported_dialect_message())),
            },
    {
        let template = self.get_template()?;
        self.encode_using_template(op, &template)
    }

    /// A fresh copy of this dialect's template.
    pub fn get_template(&self) -> (r: GatewayResult<BitMap>)
        ensures
            match dialect_template(*self) {
                Some(t) => r matches Ok(m) && layout(m@) == t && template_wf(t),
                None => r is Err && r->Err_0@ == Failure::Unsupported(unsupported_dialect_message()),
            },
    {
        match self {
            MessagingSpecification::Iso8853 => {
                proof {
                    lemma_iso8853_layout_wf();
                }
                Ok(iso8853::iso8853_bitmap_template())
            },
            MessagingSpecification::Apacs => Err(unsupported_dialect()),
        }
    }

    /// Encodes `op` against `template`, rendered the way this dialect renders fields.
    pub fn encode_using_template(&self, op: &Operation, template: &BitMap) -> (r: GatewayResult<
        String,
    >)
        requires
            template_wf(layout(template@)),
        ensures
            crate::text_result(r) == dialect_output(*self, layout(template@), *op),
    {
        match self {
            MessagingSpecification::Iso8853 => encode(op, template),
            MessagingSpecification::Apacs => Err(unsupported_dialect()),
        }
    }
}

/// A copy of `template` whose leaf at `position` extracts its value with `parser`;
/// every other field, and the leaf's length envelope and padding, stay as they were.
pub fn derive_variant(template: &BitMap, position: usize, parser: FieldParser) -> (r: BitMap)
    ensures
        layout(r@) == with_parser(layout(template@), position, parser),
{
    let mut variant = template.clone();
    match template.get(&position) {
        Some(BitField::Single(leaf)) => {
            let replaced = Leaf {
                parser,
                min_length: leaf.min_length,
                max_length: leaf.max_length,
                padding_char: leaf.padding_char,
            };
            variant.insert(position, BitField::Single(replaced));
            assert(layout(variant@) =~= with_parser(layout(template@), position, parser));
        },
        _ => {
            assert(layout(variant@) =~= layout(template@));
        },
    }
    variant
}

/// The bitmap dialect's template only uses positions the engine walks.
pub proof fn lemma_iso8853_layout_wf()
    ensures
        template_wf(iso8853::iso8853_layout()),
{
    let t = iso8853::iso8853_layout();
    assert(positions_in_range(t));
    assert forall|p: usize| #[trigger] t.contains_key(p) && t[p] is Group implies positions_in_range(
        t[p]->Group_0,
    ) by {
        assert(p == 3 || p == 4 || p == 5);
    }
}

/// Replacing a leaf's parser keeps a template walkable.
pub proof fn lemma_variant_keeps_wf(t: Map<usize, FieldLayout>, pos: usize, parser: FieldParser)
    requires
        template_wf(t),
    ensures
        template_wf(with_parser(t, pos, parser)),
{
    let v = with_parser(t, pos, parser);
    assert forall|p: usize| #[trigger] v.contains_key(p) && v[p] is Group implies positions_in_range(
        v[p]->Group_0,
    ) by {
        assert(t.contains_key(p) && t[p] == v[p]);
    }
}

/// Two operations that hold the same content, field by field and text by text.
pub open spec fn same_content(a: Operation, b: Operation) -> bool {
    &&& a.request_type == b.request_type
    &&& a.bank == b.bank
    &&& match (a.payment, b.payment) {
        (None, None) => true,
        (
            Some(Payment::Card { pan: p1, expiry_date: e1, security_code: s1, name: n1, network: w1 }),
            Some(Payment::Card { pan: p2, expiry_date: e2, security_code: s2, name: n2, network: w2 }),
        ) => p1@ == p2@ && e1@ == e2@ && s1@ == s2@ && n1@ == n2@ && w1@ == w2@,
        (
            Some(Payment::Account { account_number: a1, sort_code: c1, name: n1, bank_name: k1 }),
            Some(Payment::Account { account_number: a2, sort_code: c2, name: n2, bank_name: k2 }),
        ) => a1@ == a2@ && c1@ == c2@ && n1@ == n2@ && k1@ == k2@,
        _ => false,
    }
    &&& match (a.transaction, b.transaction) {
        (None, None) => true,
        (Some(t1), Some(t2)) => t1.amount == t2.amount && t1.currency == t2.currency
            && t1.billingname@ == t2.billingname@,
        _ => false,
    }
    &&& match (a.merchant, b.merchant) {
        (None, None) => true,
        (Some(m1), Some(m2)) => m1.name@ == m2.name@ && m1.mid@ == m2.mid@ && m1.email@ == m2.email@,
        _ => false,
    }
}

/// A parser reads only the content of an operation.
pub proof fn lemma_parsed_congruent(p: FieldParser, a: Operation, b: Operation)
    requires
        same_content(a, b),
    ensures
        parsed(p, a) == parsed(p, b),
{
}

proof fn lemma_group_congruent(g: Map<usize, Leaf>, a: Operation, b: Operation, outer: usize, p: int)
    requires
        same_content(a, b),
    ensures
        group_output(g, a, outer, p) == group_output(g, b, outer, p),
    decreases MAX_POSITION + 1 - p,
{
    if 1 <= p <= MAX_POSITION {
        if g.contains_key(p as usize) {
            lemma_parsed_congruent(g[p as usize].parser, a, b);
        }
        lemma_group_congruent(g, a, b, outer, p + 1);
    }
}

proof fn lemma_fields_congruent(t: Map<usize, FieldLayout>, a: Operation, b: Operation, p: int)
    requires
        same_content(a, b),
    ensures
        fields_output(t, a, p) == fields_output(t, b, p),
    decreases MAX_POSITION + 1 - p,
{
    if 1 <= p <= MAX_POSITION {
        if t.contains_key(p as usize) {
            match t[p as usize] {
                FieldLayout::Single(leaf) => lemma_parsed_congruent(leaf.parser, a, b),
                FieldLayout::Group(g) => lemma_group_congruent(g, a, b, p as usize, 1),
            }
        }
        lemma_fields_congruent(t, a, b, p + 1);
    }
}

/// Encoding reads only the content of an operation: two operations with the
/// same content encode to the same message, or fail with the same failure.
pub proof fn lemma_encoding_congruent(t: Map<usize, FieldLayout>, a: Operation, b: Operation)
    requires
        same_content(a, b),
    ensures
        encoded(t, a) == encoded(t, b),
{
    lemma_fields_congruent(t, a, b, 1);
}

/// The order in which fields are put into a template does not matter: putting
/// two fields at distinct positions in either order gives templates that encode
/// every operation alike.
pub proof fn lemma_insertion_order_irrelevant(
    t: Map<usize, FieldLayout>,
    p1: usize,
    f1: FieldLayout,
    p2: usize,
    f2: FieldLayout,
    op: Operation,
)
    requires
        p1 != p2,
    ensures
        encoded(t.insert(p1, f1).insert(p2, f2), op) == encoded(t.insert(p2, f2).insert(p1, f1), op),
{
    assert(t.insert(p1, f1).insert(p2, f2) =~= t.insert(p2, f2).insert(p1, f1));
}

proof fn lemma_group_without_absent(g: Map<usize, Leaf>, op: Operation, outer: usize, sub: usize, p: int)
    requires
        g.contains_key(sub),
        parsed(g[sub].parser, op) == Ok::<Option<Seq<char>>, Failure>(None),
    ensures
        group_output(g, op, outer, p) == group_output(g.remove(sub), op, outer, p),
    decreases MAX_POSITION + 1 - p,
{
    if 1 <= p <= MAX_POSITION {
        lemma_group_without_absent(g, op, outer, sub, p + 1);
    }
}

proof fn lemma_fields_agree(t: Map<usize, FieldLayout>, u: Map<usize, FieldLayout>, op: Operation, p: int)
    requires
        forall|q: usize|
            1 <= q <= MAX_POSITION ==> (if #[trigger] t.contains_key(q) {
                field_output(t[q], op, q)
            } else {
                Ok(Seq::empty())
            }) == (if u.contains_key(q) {
                field_output(u[q], op, q)
            } else {
                Ok(Seq::empty())
            }),
    ensures
        fields_output(t, op, p) == fields_output(u, op, p),
    decreases MAX_POSITION + 1 - p,
{
    if 1 <= p <= MAX_POSITION {
        assert(t.contains_key(p as usize) || !t.contains_key(p as usize));
        lemma_fields_agree(t, u, op, p + 1);
    }
}

/// A leaf whose parser finds nothing adds nothing to the message, not even its
/// position and length: the template encodes exactly as it would without that leaf.
pub proof fn lemma_absent_field_omitted(t: Map<usize, FieldLayout>, op: Operation, pos: usize)
    requires
        t.contains_key(pos),
        t[pos] is Single,
        parsed(t[pos]->Single_0.parser, op) == Ok::<Option<Seq<char>>, Failure>(None),
    ensures
        encoded(t, op) == encoded(t.remove(pos), op),
{
    let u = t.remove(pos);
    assert forall|q: usize| 1 <= q <= MAX_POSITION implies (if #[trigger] t.contains_key(q) {
        field_output(t[q], op, q)
    } else {
        Ok(Seq::empty())
    }) == (if u.contains_key(q) {
        field_output(u[q], op, q)
    } else {
        Ok(Seq::empty())
    }) by {
        if q != pos {
            assert(t.contains_key(q) == u.contains_key(q));
        }
    }
    lemma_fields_agree(t, u, op, 1);
}

/// The same within a group: a leaf of a group whose parser finds nothing adds
/// nothing to the group, which encodes exactly as it would without that leaf.
pub proof fn lemma_absent_group_field_omitted(
    t: Map<usize, FieldLayout>,
    op: Operation,
    pos: usize,
    sub: usize,
)
    requires
        t.contains_key(pos),
        t[pos] is Group,
        t[pos]->Group_0.contains_key(sub),
        parsed(t[pos]->Group_0[sub].parser, op) == Ok::<Option<Seq<char>>, Failure>(None),
    ensures
        encoded(t, op) == encoded(
            t.insert(pos, FieldLayout::Group(t[pos]->Group_0.remove(sub))),
            op,
        ),
{
    let g = t[pos]->Group_0;
    let u = t.insert(pos, FieldLayout::Group(g.remove(sub)));
    lemma_group_without_absent(g, op, pos, sub, 1);
    assert forall|q: usize| 1 <= q <= MAX_POSITION implies (if #[trigger] t.contains_key(q) {
        field_output(t[q], op, q)
    } else {
        Ok(Seq::empty())
    }) == (if u.contains_key(q) {
        field_output(u[q], op, q)
    } else {
        Ok(Seq::empty())
    }) by {
        if q != pos {
            assert(t.contains_key(q) == u.contains_key(q));
        }
    }
    lemma_fields_agree(t, u, op, 1);
}

proof fn lemma_fields_fail_at(t: Map<usize, FieldLayout>, op: Operation, p: int, q: usize)
    requires
        1 <= p <= q <= MAX_POSITION,
        t.contains_key(q),
        field_output(t[q], op, q) is Err,
    ensures
        fields_output(t, op, p) is Err,
        (forall|r: usize| p <= r < q && #[trigger] t.contains_key(r) ==> field_output(t[r], op, r) is Ok)
            ==> fields_output(t, op, p) == field_output(t[q], op, q),
    decreases q - p,
{
    if p < q {
        lemma_fields_fail_at(t, op, p + 1, q);
        assert(t.contains_key(p as usize) || !t.contains_key(p as usize));
    }
}

proof fn lemma_group_fail_at(g: Map<usize, Leaf>, op: Operation, outer: usize, p: int, q: usize)
    requires
        1 <= p <= q <= MAX_POSITION,
        g.contains_key(q),
        leaf_output(g[q], op, Some(outer), q) is Err,
    ensures
        group_output(g, op, outer, p) is Err,
        (forall|r: usize|
            p <= r < q && #[trigger] g.contains_key(r) ==> leaf_output(g[r], op, Some(outer), r) is Ok)
            ==> group_output(g, op, outer, p) == leaf_output(g[q], op, Some(outer), q),
    decreases q - p,
{
    if p < q {
        lemma_group_fail_at(g, op, outer, p + 1, q);
        assert(g.contains_key(p as usize) || !g.contains_key(p as usize));
    }
}

/// A leaf whose value is longer than its maximum length makes encoding fail, with
/// no message at all; when every field before it encodes, the failure is the
/// overlength error naming the leaf's position, the value's length and the maximum.
pub proof fn lemma_overlength_rejected(t: Map<usize, FieldLayout>, op: Operation, pos: usize, v: Seq<char>)
    requires
        template_wf(t),
        t.contains_key(pos),
        t[pos] is Single,
        parsed(t[pos]->Single_0.parser, op) == Ok::<Option<Seq<char>>, Failure>(Some(v)),
        byte_len(v) > t[pos]->Single_0.max_length,
    ensures
        encoded(t, op) is Err,
        (forall|q: usize| 1 <= q < pos && #[trigger] t.contains_key(q) ==> field_output(t[q], op, q) is Ok)
            ==> encoded(t, op) == Err::<Seq<char>, Failure>(
            Failure::Encoding(
                overlength_message(v, decimal(pos as nat), t[pos]->Single_0.max_length as nat),
            ),
        ),
{
    lemma_fields_fail_at(t, op, 1, pos);
}

/// The same within a group: the failure then names the leaf as `group.leaf`.
pub proof fn lemma_overlength_in_group_rejected(
    t: Map<usize, FieldLayout>,
    op: Operation,
    pos: usize,
    sub: usize,
    v: Seq<char>,
)
    requires
        template_wf(t),
        t.contains_key(pos),
        t[pos] is Group,
        t[pos]->Group_0.contains_key(sub),
        parsed(t[pos]->Group_0[sub].parser, op) == Ok::<Option<Seq<char>>, Failure>(Some(v)),
        byte_len(v) > t[pos]->Group_0[sub].max_length,
    ensures
        encoded(t, op) is Err,
        (forall|q: usize| 1 <= q < pos && #[trigger] t.contains_key(q) ==> field_output(t[q], op, q) is Ok)
            && (forall|r: usize|
            1 <= r < sub && #[trigger] t[pos]->Group_0.contains_key(r) ==> leaf_output(
                t[pos]->Group_0[r],
                op,
                Some(pos),
                r,
            ) is Ok) ==> encoded(t, op) == Err::<Seq<char>, Failure>(
            Failure::Encoding(
                overlength_message(
                    v,
                    decimal(pos as nat) + "."@ + decimal(sub as nat),
                    t[pos]->Group_0[sub].max_length as nat,
                ),
            ),
        ),
{
    let g = t[pos]->Group_0;
    lemma_group_fail_at(g, op, pos, 1, sub);
    lemma_fields_fail_at(t, op, 1, pos);
}

/// Deriving a variant touches nothing but the parser of the chosen leaf: every
/// other position holds what it held, and the leaf keeps its length envelope and
/// padding; where the position holds no leaf, the template is unchanged.
pub proof fn lemma_variant_isolation(t: Map<usize, FieldLayout>, pos: usize, parser: FieldParser)
    ensures
        with_parser(t, pos, parser).dom() == t.dom(),
        forall|q: usize|
            q != pos && #[trigger] t.contains_key(q) ==> with_parser(t, pos, parser)[q] == t[q],
        t.contains_key(pos) && t[pos] is Single ==> {
            let before = t[pos]->Single_0;
            let after = with_parser(t, pos, parser)[pos];
            &&& after is Single
            &&& after->Single_0.parser == parser
            &&& after->Single_0.min_length == before.min_length
            &&& after->Single_0.max_length == before.max_length
            &&& after->Single_0.padding_char == before.padding_char
        },
        !(t.contains_key(pos) && t[pos] is Single) ==> with_parser(t, pos, parser) == t,
{
    if t.contains_key(pos) && t[pos] is Single {
        assert(with_parser(t, pos, parser).dom() =~= t.dom());
    }
}

/// A leaf with an ASCII padding character renders a value that fits its maximum
/// length left-padded with that character to its minimum length (exactly that many
/// bytes when shorter, unchanged when not), framed by its position and the padded
/// length.
pub proof fn lemma_leaf_padding(
    leaf: Leaf,
    op: Operation,
    outer: Option<usize>,
    pos: usize,
    v: Seq<char>,
    c: char,
)
    requires
        parsed(leaf.parser, op) == Ok::<Option<Seq<char>>, Failure>(Some(v)),
        byte_len(v) <= leaf.max_length,
        leaf.padding_char == Some(c),
        c <= '\u{7f}',
    ensures
        leaf_output(leaf, op, outer, pos) == Ok::<Seq<char>, Failure>(
            framed(pos as nat, pad_left(v, leaf.min_length as nat, c)),
        ),
        byte_len(v) < leaf.min_length ==> byte_len(pad_left(v, leaf.min_length as nat, c))
            == leaf.min_length,
        byte_len(v) >= leaf.min_length ==> pad_left(v, leaf.min_length as nat, c) == v,
{
    crate::text::lemma_pad_left(v, leaf.min_length as nat, c);
}

proof fn lemma_fields_split(t: Map<usize, FieldLayout>, op: Operation, p: int, q: usize) -> (pieces: (
    Seq<char>,
    Seq<char>,
    Seq<char>,
))
    requires
        1 <= p <= q <= MAX_POSITION,
        t.contains_key(q),
        fields_output(t, op, p) is Ok,
    ensures
        field_output(t[q], op, q) is Ok,
        fields_output(t, op, q + 1) is Ok,
        pieces.1 == field_output(t[q], op, q)->Ok_0,
        pieces.2 == fields_output(t, op, q + 1)->Ok_0,
        fields_output(t, op, p)->Ok_0 == pieces.0 + pieces.1 + pieces.2,
    decreases q - p,
{
    let here = if t.contains_key(p as usize) {
        field_output(t[p as usize], op, p as usize)
    } else {
        Ok(Seq::empty())
    };
    if p == q {
        let f = field_output(t[q], op, q)->Ok_0;
        let r = fields_output(t, op, q + 1)->Ok_0;
        assert(fields_output(t, op, p)->Ok_0 =~= Seq::<char>::empty() + f + r);
        (Seq::empty(), f, r)
    } else {
        let (a, f, r) = lemma_fields_split(t, op, p + 1, q);
        let h = here->Ok_0;
        assert(fields_output(t, op, p)->Ok_0 =~= (h + a) + f + r);
        (h + a, f, r)
    }
}

proof fn lemma_group_split(g: Map<usize, Leaf>, op: Operation, outer: usize, p: int, q: usize) -> (pieces: (
    Seq<char>,
    Seq<char>,
))
    requires
        1 <= p <= q <= MAX_POSITION,
        g.contains_key(q),
        group_output(g, op, outer, p) is Ok,
    ensures
        leaf_output(g[q], op, Some(outer), q) is Ok,
        group_output(g, op, outer, q + 1) is Ok,
        pieces.1 == group_output(g, op, outer, q + 1)->Ok_0,
        group_output(g, op, outer, p)->Ok_0 == pieces.0 + leaf_output(g[q], op, Some(outer), q)->Ok_0
            + pieces.1,
    decreases q - p,
{
    let here = if g.contains_key(p as usize) {
        leaf_output(g[p as usize], op, Some(outer), p as usize)
    } else {
        Ok(Seq::empty())
    };
    let f = leaf_output(g[q], op, Some(outer), q)->Ok_0;
    if p == q {
        let r = group_output(g, op, outer, q + 1)->Ok_0;
        assert(group_output(g, op, outer, p)->Ok_0 =~= Seq::<char>::empty() + f + r);
        (Seq::empty(), r)
    } else {
        let (a, r) = lemma_group_split(g, op, outer, p + 1, q);
        let h = here->Ok_0;
        assert(group_output(g, op, outer, p)->Ok_0 =~= (h + a) + f + r);
        (h + a, r)
    }
}

/// Fields appear in the message in ascending position order: of two positions
/// that a successfully encoded template holds, the lower one's rendering comes first.
pub proof fn lemma_fields_in_ascending_order(
    t: Map<usize, FieldLayout>,
    op: Operation,
    p: usize,
    q: usize,
    s: Seq<char>,
)
    requires
        template_wf(t),
        encoded(t, op) == Ok::<Seq<char>, Failure>(s),
        t.contains_key(p),
        t.contains_key(q),
        p < q,
    ensures
        field_output(t[p], op, p) is Ok,
        field_output(t[q], op, q) is Ok,
        exists|a: Seq<char>, b: Seq<char>, c: Seq<char>|
            s == a + field_output(t[p], op, p)->Ok_0 + b + field_output(t[q], op, q)->Ok_0 + c,
{
    let (a, fp, r) = lemma_fields_split(t, op, 1, p);
    let (b, fq, c) = lemma_fields_split(t, op, p + 1, q);
    assert(s =~= a + fp + b + fq + c);
}

/// A leaf of a successfully encoded template sits in the message as its value,
/// padded as the leaf asks, framed by its position and its length in bytes.
pub proof fn lemma_leaf_in_message(
    t: Map<usize, FieldLayout>,
    op: Operation,
    pos: usize,
    v: Seq<char>,
    s: Seq<char>,
)
    requires
        template_wf(t),
        encoded(t, op) == Ok::<Seq<char>, Failure>(s),
        t.contains_key(pos),
        t[pos] is Single,
        parsed(t[pos]->Single_0.parser, op) == Ok::<Option<Seq<char>>, Failure>(Some(v)),
    ensures
        byte_len(v) <= t[pos]->Single_0.max_length,
        exists|a: Seq<char>, b: Seq<char>|
            s == a + framed(pos as nat, padded_by(v, leaf_padding(t[pos]->Single_0))) + b,
{
    let (a, f, b) = lemma_fields_split(t, op, 1, pos);
    assert(s =~= a + f + b);
}

/// The same within a group: a leaf of a group sits in the message as its padded,
/// framed value, inside the group's own frame.
pub proof fn lemma_group_leaf_in_message(
    t: Map<usize, FieldLayout>,
    op: Operation,
    pos: usize,
    sub: usize,
    v: Seq<char>,
    s: Seq<char>,
)
    requires
        template_wf(t),
        encoded(t, op) == Ok::<Seq<char>, Failure>(s),
        t.contains_key(pos),
        t[pos] is Group,
        t[pos]->Group_0.contains_key(sub),
        parsed(t[pos]->Group_0[sub].parser, op) == Ok::<Option<Seq<char>>, Failure>(Some(v)),
    ensures
        byte_len(v) <= t[pos]->Group_0[sub].max_length,
        exists|a: Seq<char>, b: Seq<char>|
            s == a + framed(sub as nat, padded_by(v, leaf_padding(t[pos]->Group_0[sub]))) + b,
{
    let g = t[pos]->Group_0;
    let (a, f, b) = lemma_fields_split(t, op, 1, pos);
    let (ga, gb) = lemma_group_split(g, op, pos, 1, sub);
    let inner = group_output(g, op, pos, 1)->Ok_0;
    let leaf_text = leaf_output(g[sub], op, Some(pos), sub)->Ok_0;
    let head = two_digits(pos as nat) + two_digits(byte_len(inner));
    assert(f == head + inner);
    assert(s =~= (a + head + ga) + leaf_text + (gb + b));
}

/// Within a group too, leaves appear in ascending position order.
pub proof fn lemma_group_fields_in_ascending_order(
    t: Map<usize, FieldLayout>,
    op: Operation,
    pos: usize,
    p: usize,
    q: usize,
    s: Seq<char>,
)
    requires
        template_wf(t),
        encoded(t, op) == Ok::<Seq<char>, Failure>(s),
        t.contains_key(pos),
        t[pos] is Group,
        t[pos]->Group_0.contains_key(p),
        t[pos]->Group_0.contains_key(q),
        p < q,
    ensures
        leaf_output(t[pos]->Group_0[p], op, Some(pos), p) is Ok,
        leaf_output(t[pos]->Group_0[q], op, Some(pos), q) is Ok,
        exists|a: Seq<char>, b: Seq<char>, c: Seq<char>|
            s == a + leaf_output(t[pos]->Group_0[p], op, Some(pos), p)->Ok_0 + b + leaf_output(
                t[pos]->Group_0[q],
                op,
                Some(pos),
                q,
            )->Ok_0 + c,
{
    let g = t[pos]->Group_0;
    let (a, f, b) = lemma_fields_split(t, op, 1, pos);
    let (ga, r) = lemma_group_split(g, op, pos, 1, p);
    let (gb, gc) = lemma_group_split(g, op, pos, p + 1, q);
    let inner = group_output(g, op, pos, 1)->Ok_0;
    let fp = leaf_output(g[p], op, Some(pos), p)->Ok_0;
    let fq = leaf_output(g[q], op, Some(pos), q)->Ok_0;
    let head = two_digits(pos as nat) + two_digits(byte_len(inner));
    assert(f == head + inner);
    lemma_regroup(a, head, ga, fp, gb, fq, gc, b);
    assert(s == (a + head + ga) + fp + gb + fq + (gc + b));
}

proof fn lemma_regroup(
    a: Seq<char>,
    head: Seq<char>,
    ga: Seq<char>,
    fp: Seq<char>,
    gb: Seq<char>,
    fq: Seq<char>,
    gc: Seq<char>,
    b: Seq<char>,
)
    ensures
        a + (head + (ga + fp + (gb + fq + gc))) + b == (a + head + ga) + fp + gb + fq + (gc + b),
{
    assert(a + (head + (ga + fp + (gb + fq + gc))) + b =~= (a + head + ga) + fp + gb + fq + (gc + b));
}

} // verus!
