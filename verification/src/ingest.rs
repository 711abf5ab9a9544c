//! Ingest: the raw export document model, its normalization into a flat list
//! of token records, and the deterministic ordering imposed on that list.
//!
//! The export document is a plain structured value (the embedding program
//! parses bytes into [`RawValue`]). Normalization walks the `collections`
//! mapping recursively. An object entry is a *token* when it carries a
//! `$value` key — even when other keys stand beside it, a deliberate
//! precedence choice — and a nested *group* otherwise. The flat list is then
//! stably sorted by token path, so that emission order is a function of the
//! document alone and never of any container's iteration order.

use vstd::prelude::*;

use crate::OrchestratorError;

verus! {

/// A plain structured value carried from the source document: the shape of
/// JSON, with numbers kept verbatim as their decimal literal text so that the
/// pipeline neither loses precision nor touches floating point.
#[derive(Debug)]
pub enum RawValue {
    Null,
    Bool(bool),
    /// A numeric literal, held as its source text.
    Number(String),
    Text(String),
    Array(Vec<RawValue>),
    Object(Vec<(String, RawValue)>),
}

/// The mathematical model of a [`RawValue`].
pub enum ValueModel {
    Null,
    Bool(bool),
    Number(Seq<char>),
    Text(Seq<char>),
    Array(Seq<ValueModel>),
    Object(Seq<(Seq<char>, ValueModel)>),
}

/// Maps a raw value to its model, structurally.
pub open spec fn value_view(v: RawValue) -> ValueModel
    decreases v, 1int, 0int,
{
    match v {
        RawValue::Null => ValueModel::Null,
        RawValue::Bool(b) => ValueModel::Bool(b),
        RawValue::Number(s) => ValueModel::Number(s@),
        RawValue::Text(s) => ValueModel::Text(s@),
        RawValue::Array(items) => ValueModel::Array(
            array_model_upto(items@, items@.len() as int),
        ),
        RawValue::Object(entries) => ValueModel::Object(
            object_model_upto(entries@, entries@.len() as int),
        ),
    }
}

/// The models of an array's first `i` items.
pub open spec fn array_model_upto(items: Seq<RawValue>, i: int) -> Seq<ValueModel>
    decreases items, 0int, i,
{
    if i <= 0 || items.len() < i {
        Seq::empty()
    } else {
        array_model_upto(items, i - 1).push(value_view(items[i - 1]))
    }
}

/// The models of an object's first `i` entries.
pub open spec fn object_model_upto(es: Seq<(String, RawValue)>, i: int) -> Seq<
    (Seq<char>, ValueModel),
>
    decreases es, 0int, i,
{
    if i <= 0 || es.len() < i {
        Seq::empty()
    } else {
        object_model_upto(es, i - 1).push((es[i - 1].0@, value_view(es[i - 1].1)))
    }
}

/// The model of an object's whole entry list.
pub open spec fn object_model(es: Seq<(String, RawValue)>) -> Seq<(Seq<char>, ValueModel)> {
    object_model_upto(es, es.len() as int)
}

/// Pointwise reading of [`array_model_upto`].
pub proof fn lemma_array_model_upto(items: Seq<RawValue>, i: int)
    requires
        0 <= i <= items.len(),
    ensures
        array_model_upto(items, i).len() == i,
        forall|j: int|
            0 <= j < i ==> #[trigger] array_model_upto(items, i)[j] == value_view(items[j]),
    decreases i,
{
    if i > 0 {
        lemma_array_model_upto(items, i - 1);
    }
}

/// Pointwise reading of [`object_model_upto`].
pub proof fn lemma_object_model_upto(es: Seq<(String, RawValue)>, i: int)
    requires
        0 <= i <= es.len(),
    ensures
        object_model_upto(es, i).len() == i,
        forall|j: int|
            0 <= j < i ==> #[trigger] object_model_upto(es, i)[j] == (
                es[j].0@,
                value_view(es[j].1),
            ),
    decreases i,
{
    if i > 0 {
        lemma_object_model_upto(es, i - 1);
    }
}

/// Pointwise reading of [`object_model`].
pub proof fn lemma_object_model(es: Seq<(String, RawValue)>)
    ensures
        object_model(es).len() == es.len(),
        forall|j: int|
            0 <= j < es.len() ==> #[trigger] object_model(es)[j] == (
                es[j].0@,
                value_view(es[j].1),
            ),
{
    lemma_object_model_upto(es, es.len() as int);
}

impl View for RawValue {
    type V = ValueModel;

    open spec fn view(&self) -> ValueModel {
        value_view(*self)
    }
}

/// One normalized design token: its hierarchical identity, semantic kind,
/// verbatim value, and optional description.
#[derive(Debug)]
pub struct Token {
    pub path: Vec<String>,
    pub token_type: String,
    pub value: RawValue,
    pub description: Option<String>,
}

/// The mathematical model of a [`Token`].
pub struct TokenModel {
    pub path: Seq<Seq<char>>,
    pub token_type: Seq<char>,
    pub value: ValueModel,
    pub description: Option<Seq<char>>,
}

impl View for Token {
    type V = TokenModel;

    open spec fn view(&self) -> TokenModel {
        TokenModel {
            path: self.path.deep_view(),
            token_type: self.token_type@,
            value: self.value@,
            description: match self.description {
                Option::Some(d) => Option::Some(d@),
                Option::None => Option::None,
            },
        }
    }
}

/// The models of a token list, in list order.
pub open spec fn tokens_view(ts: Seq<Token>) -> Seq<TokenModel> {
    Seq::new(ts.len(), |i: int| ts[i]@)
}

/// Why a document failed to match the export shape.
#[derive(Debug, Clone, Copy, PartialEq, Eq, Structural)]
pub enum ParseIssueKind {
    /// The document root is not an object.
    DocumentNotObject,
    /// The `collections` entry is present but not an object.
    CollectionsNotObject,
    /// A collection or group member that must be an object is not one.
    EntryNotObject,
    /// A token's `$type` is present but not a string.
    TypeNotText,
    /// A token's `$description` is present but not a string.
    DescriptionNotText,
}

/// A shape violation, located by the path at which it was found.
#[derive(Debug)]
pub struct ParseIssue {
    pub path: Vec<String>,
    pub kind: ParseIssueKind,
}

/// The mathematical model of a [`ParseIssue`].
pub struct ParseIssueModel {
    pub path: Seq<Seq<char>>,
    pub kind: ParseIssueKind,
}

impl View for ParseIssue {
    type V = ParseIssueModel;

    open spec fn view(&self) -> ParseIssueModel {
        ParseIssueModel { path: self.path.deep_view(), kind: self.kind }
    }
}

/// First value bound to `key` in an object's entry list, if any.
pub open spec fn model_get(entries: Seq<(Seq<char>, ValueModel)>, key: Seq<char>) -> Option<
    ValueModel,
>
    decreases entries.len(),
{
    if entries.len() == 0 {
        Option::None
    } else if entries[0].0 == key {
        Option::Some(entries[0].1)
    } else {
        model_get(entries.subrange(1, entries.len() as int), key)
    }
}

/// The sentinel type tag recorded when a token names no `$type`.
pub open spec fn sentinel_type() -> Seq<char> {
    "unknown"@
}

/// Whether an optional entry is absent or holds a string.
pub open spec fn opt_is_text_or_absent(v: Option<ValueModel>) -> bool {
    match v {
        Option::None => true,
        Option::Some(x) => x is Text,
    }
}

/// The text of an optional string entry, with a default when absent.
pub open spec fn text_of(v: Option<ValueModel>, dflt: Seq<char>) -> Seq<char> {
    match v {
        Option::Some(ValueModel::Text(t)) => t,
        _ => dflt,
    }
}

/// The text of an optional string entry, if any.
pub open spec fn opt_text(v: Option<ValueModel>) -> Option<Seq<char>> {
    match v {
        Option::Some(ValueModel::Text(t)) => Option::Some(t),
        _ => Option::None,
    }
}

/// The token materialized from an object that carries a `$value` key, or the
/// shape violation that stops it.
pub open spec fn flat_token(path: Seq<Seq<char>>, entries: Seq<(Seq<char>, ValueModel)>) -> Result<
    Seq<TokenModel>,
    ParseIssueModel,
> {
    if !opt_is_text_or_absent(model_get(entries, "$type"@)) {
        Result::Err(ParseIssueModel { path, kind: ParseIssueKind::TypeNotText })
    } else if !opt_is_text_or_absent(model_get(entries, "$description"@)) {
        Result::Err(ParseIssueModel { path, kind: ParseIssueKind::DescriptionNotText })
    } else {
        Result::Ok(
            seq![
                TokenModel {
                    path,
                    token_type: text_of(model_get(entries, "$type"@), sentinel_type()),
                    value: match model_get(entries, "$value"@) {
                        Option::Some(v) => v,
                        Option::None => ValueModel::Null,
                    },
                    description: opt_text(model_get(entries, "$description"@)),
                },
            ],
        )
    }
}

/// Flattens one entry found at `path`: a token when it carries `$value`, a
/// group to recurse into otherwise. Anything but an object is a violation.
pub open spec fn flat_entry(path: Seq<Seq<char>>, v: ValueModel) -> Result<
    Seq<TokenModel>,
    ParseIssueModel,
>
    decreases v, 1int, 0int,
{
    match v {
        ValueModel::Object(entries) => {
            if model_get(entries, "$value"@) is Some {
                flat_token(path, entries)
            } else {
                flat_group_upto(path, entries, entries.len() as int)
            }
        },
        _ => Result::Err(ParseIssueModel { path, kind: ParseIssueKind::EntryNotObject }),
    }
}

/// Flattens the first `i` members of a group at `path`, in entry order,
/// stopping at the first violation.
pub open spec fn flat_group_upto(
    path: Seq<Seq<char>>,
    entries: Seq<(Seq<char>, ValueModel)>,
    i: int,
) -> Result<Seq<TokenModel>, ParseIssueModel>
    decreases entries, 0int, i,
{
    if i <= 0 || entries.len() < i {
        Result::Ok(Seq::empty())
    } else {
        match flat_group_upto(path, entries, i - 1) {
            Result::Err(e) => Result::Err(e),
            Result::Ok(acc) => match flat_entry(path.push(entries[i - 1].0), entries[i - 1].1) {
                Result::Err(e) => Result::Err(e),
                Result::Ok(ts) => Result::Ok(acc + ts),
            },
        }
    }
}

/// Flattens the first `i` collections, in entry order. A collection is always
/// a group seeding the path with its name, never a token.
pub open spec fn flat_collections_upto(cols: Seq<(Seq<char>, ValueModel)>, i: int) -> Result<
    Seq<TokenModel>,
    ParseIssueModel,
>
    decreases i,
{
    if i <= 0 {
        Result::Ok(Seq::empty())
    } else {
        match flat_collections_upto(cols, i - 1) {
            Result::Err(e) => Result::Err(e),
            Result::Ok(acc) => match cols[i - 1].1 {
                ValueModel::Object(ge) => match flat_group_upto(
                    seq![cols[i - 1].0],
                    ge,
                    ge.len() as int,
                ) {
                    Result::Err(e) => Result::Err(e),
                    Result::Ok(ts) => Result::Ok(acc + ts),
                },
                _ => Result::Err(
                    ParseIssueModel { path: seq![cols[i - 1].0], kind: ParseIssueKind::EntryNotObject },
                ),
            },
        }
    }
}

/// Flattens a whole document: its `collections` object, if present, in entry
/// order. A missing `collections` entry means an empty export.
pub open spec fn spec_flatten(doc: ValueModel) -> Result<Seq<TokenModel>, ParseIssueModel> {
    match doc {
        ValueModel::Object(entries) => match model_get(entries, "collections"@) {
            Option::None => Result::Ok(Seq::empty()),
            Option::Some(ValueModel::Object(cols)) => flat_collections_upto(
                cols,
                cols.len() as int,
            ),
            Option::Some(_) => Result::Err(
                ParseIssueModel { path: Seq::empty(), kind: ParseIssueKind::CollectionsNotObject },
            ),
        },
        _ => Result::Err(
            ParseIssueModel { path: Seq::empty(), kind: ParseIssueKind::DocumentNotObject },
        ),
    }
}

/// Lexicographic order on text, from position `i` on: the strict `a < b`.
pub open spec fn str_lt_from(a: Seq<char>, b: Seq<char>, i: int) -> bool
    decreases b.len() - i,
{
    if i >= b.len() {
        false
    } else if i >= a.len() {
        true
    } else if a[i] != b[i] {
        a[i] < b[i]
    } else {
        str_lt_from(a, b, i + 1)
    }
}

/// Strict lexicographic order on text.
pub open spec fn str_lt(a: Seq<char>, b: Seq<char>) -> bool {
    str_lt_from(a, b, 0)
}

/// Lexicographic order on paths, from segment `i` on: the strict `a < b`,
/// segments compared by [`str_lt`], a proper prefix ordered first.
pub open spec fn path_lt_from(a: Seq<Seq<char>>, b: Seq<Seq<char>>, i: int) -> bool
    decreases b.len() - i,
{
    if i >= b.len() {
        false
    } else if i >= a.len() {
        true
    } else if a[i] != b[i] {
        str_lt(a[i], b[i])
    } else {
        path_lt_from(a, b, i + 1)
    }
}

/// Strict lexicographic order on token paths.
pub open spec fn path_lt(a: Seq<Seq<char>>, b: Seq<Seq<char>>) -> bool {
    path_lt_from(a, b, 0)
}

/// No later token's path is strictly below an earlier one's.
pub open spec fn tokens_sorted(ts: Seq<TokenModel>) -> bool {
    forall|i: int, j: int| 0 <= i < j < ts.len() ==> !path_lt(ts[j].path, ts[i].path)
}

/// The position at which `t` is inserted into `sorted`, scanning from `i`:
/// before the first element strictly above it, so after every equal path —
/// the stable choice.
pub open spec fn insert_pos(sorted: Seq<TokenModel>, t: TokenModel, i: int) -> int
    decreases sorted.len() - i,
{
    if i >= sorted.len() {
        sorted.len() as int
    } else if path_lt(t.path, sorted[i].path) {
        i
    } else {
        insert_pos(sorted, t, i + 1)
    }
}

/// Insertion sort of the first `i` tokens.
pub open spec fn sort_upto(ts: Seq<TokenModel>, i: int) -> Seq<TokenModel>
    decreases i,
{
    if i <= 0 {
        Seq::empty()
    } else {
        let s = sort_upto(ts, i - 1);
        s.insert(insert_pos(s, ts[i - 1], 0), ts[i - 1])
    }
}

/// The stable sort of a token list by path.
pub open spec fn spec_sort_tokens(ts: Seq<TokenModel>) -> Seq<TokenModel> {
    sort_upto(ts, ts.len() as int)
}

/// What normalization yields on a document: its flat token list, stably
/// sorted by path, or the first shape violation in entry order.
pub open spec fn spec_normalize(doc: ValueModel) -> Result<Seq<TokenModel>, ParseIssueModel> {
    match spec_flatten(doc) {
        Result::Ok(ts) => Result::Ok(spec_sort_tokens(ts)),
        Result::Err(e) => Result::Err(e),
    }
}

/// The path of an issue joined with `.`, then the reason.
pub open spec fn issue_message(issue: ParseIssueModel) -> Seq<char> {
    match issue.kind {
        ParseIssueKind::DocumentNotObject => "document root is not an object"@,
        ParseIssueKind::CollectionsNotObject => "collections is not an object"@,
        ParseIssueKind::EntryNotObject => dotted(issue.path) + " is not an object"@,
        ParseIssueKind::TypeNotText => dotted(issue.path) + " has a non-string $type"@,
        ParseIssueKind::DescriptionNotText => dotted(issue.path)
            + " has a non-string $description"@,
    }
}

/// The first `i` segments of a path joined with `.`.
pub open spec fn dotted_upto(path: Seq<Seq<char>>, i: int) -> Seq<char>
    decreases i,
{
    if i <= 0 {
        Seq::empty()
    } else if i == 1 {
        path[0]
    } else {
        dotted_upto(path, i - 1) + "."@ + path[i - 1]
    }
}

/// A path's segments joined with `.`: the token's dotted identity.
pub open spec fn dotted(path: Seq<Seq<char>>) -> Seq<char> {
    dotted_upto(path, path.len() as int)
}

/// Joins a path's segments with `.`.
pub fn dotted_path(path: &Vec<String>) -> (r: String)
    ensures
        r@ == dotted(path.deep_view()),
{
    let mut out = String::new();
    let mut i: usize = 0;
    while i < path.len()
        invariant
            i <= path.len(),
            out@ == dotted_upto(path.deep_view(), i as int),
        decreases path.len() - i,
    {
        if i > 0 {
            out.append(".");
        }
        out.append(path[i].as_str());
        assert(path.deep_view()[i as int] == path[i as int]@);
        i = i + 1;
    }
    out
}

/// First value bound to `key` in an object's entry list, if any.
fn obj_get<'a>(entries: &'a Vec<(String, RawValue)>, key: &String) -> (r: Option<&'a RawValue>)
    ensures
        match model_get(object_model(entries@), key@) {
            Option::Some(v) => match r {
                Option::Some(rv) => rv@ == v,
                Option::None => false,
            },
            Option::None => match r {
                Option::Some(_) => false,
                Option::None => true,
            },
        },
{
    proof {
        lemma_object_model(entries@);
    }
    let ghost om = object_model(entries@);
    proof {
        assert(om.subrange(0, om.len() as int) =~= om);
    }
    let mut i: usize = 0;
    while i < entries.len()
        invariant
            i <= entries.len(),
            om == object_model(entries@),
            om.len() == entries@.len(),
            forall|j: int|
                0 <= j < entries@.len() ==> #[trigger] om[j] == (
                    entries@[j].0@,
                    value_view(entries@[j].1),
                ),
            model_get(om, key@) == model_get(om.subrange(i as int, om.len() as int), key@),
        decreases entries.len() - i,
    {
        if entries[i].0 == *key {
            assert(om.subrange(i as int, om.len() as int)[0] == om[i as int]);
            return Option::Some(&entries[i].1);
        }
        proof {
            let tail = om.subrange(i as int, om.len() as int);
            assert(tail[0] == om[i as int]);
            assert(tail.subrange(1, tail.len() as int) =~= om.subrange(
                i + 1,
                om.len() as int,
            ));
        }
        i = i + 1;
    }
    proof {
        assert(om.subrange(i as int, om.len() as int).len() == 0);
    }
    Option::None
}

/// Copies a path's segments.
fn clone_segments(v: &Vec<String>) -> (r: Vec<String>)
    ensures
        r@ == v@,
{
    let mut out: Vec<String> = Vec::new();
    let mut i: usize = 0;
    while i < v.len()
        invariant
            i <= v.len(),
            out@ =~= v@.subrange(0, i as int),
        decreases v.len() - i,
    {
        out.push(v[i].clone());
        i = i + 1;
    }
    proof {
        assert(out@ =~= v@);
    }
    out
}

/// Copies a raw value; the copy has the same model.
#[verifier::loop_isolation(false)]
fn clone_value(v: &RawValue) -> (r: RawValue)
    ensures
        r@ == v@,
    decreases *v,
{
    match v {
        RawValue::Null => RawValue::Null,
        RawValue::Bool(b) => RawValue::Bool(*b),
        RawValue::Number(s) => RawValue::Number(s.clone()),
        RawValue::Text(s) => RawValue::Text(s.clone()),
        RawValue::Array(items) => {
            let mut out: Vec<RawValue> = Vec::new();
            let mut i: usize = 0;
            while i < items.len()
                invariant
                    i <= items.len(),
                    out@.len() == i,
                    forall|j: int| 0 <= j < i ==> value_view(#[trigger] out@[j]) == value_view(
                        items@[j],
                    ),
                decreases items.len() - i,
            {
                out.push(clone_value(&items[i]));
                i = i + 1;
            }
            let r = RawValue::Array(out);
            proof {
                lemma_array_model_upto(out@, out@.len() as int);
                lemma_array_model_upto(items@, items@.len() as int);
                assert(array_model_upto(out@, out@.len() as int) =~= array_model_upto(
                    items@,
                    items@.len() as int,
                ));
            }
            r
        },
        RawValue::Object(entries) => {
            let mut out: Vec<(String, RawValue)> = Vec::new();
            let mut i: usize = 0;
            while i < entries.len()
                invariant
                    i <= entries.len(),
                    out@.len() == i,
                    forall|j: int| 0 <= j < i ==> (#[trigger] out@[j]).0 == entries@[j].0
                        && value_view(out@[j].1) == value_view(entries@[j].1),
                decreases entries.len() - i,
            {
                let cloned = clone_value(&entries[i].1);
                out.push((entries[i].0.clone(), cloned));
                i = i + 1;
            }
            let r = RawValue::Object(out);
            proof {
                lemma_object_model(out@);
                lemma_object_model(entries@);
                assert(object_model(out@) =~= object_model(entries@));
            }
            r
        },
    }
}


/// A violation found while flattening a group persists through the rest of
/// the group: later members never override it.
proof fn lemma_group_err_persists(
    path: Seq<Seq<char>>,
    es: Seq<(Seq<char>, ValueModel)>,
    i: int,
    j: int,
)
    requires
        0 <= i <= j <= es.len(),
        flat_group_upto(path, es, i) is Err,
    ensures
        flat_group_upto(path, es, j) == flat_group_upto(path, es, i),
    decreases j - i,
{
    if j > i {
        lemma_group_err_persists(path, es, i, j - 1);
    }
}

/// A violation found while flattening the collections persists likewise.
proof fn lemma_collections_err_persists(cols: Seq<(Seq<char>, ValueModel)>, i: int, j: int)
    requires
        0 <= i <= j <= cols.len(),
        flat_collections_upto(cols, i) is Err,
    ensures
        flat_collections_upto(cols, j) == flat_collections_upto(cols, i),
    decreases j - i,
{
    if j > i {
        lemma_collections_err_persists(cols, i, j - 1);
    }
}

/// Renders a shape violation as the pipeline's parse error.
fn issue_to_error(ie: ParseIssue) -> (r: OrchestratorError)
    ensures
        match r {
            OrchestratorError::Parse(m) => m@ == issue_message(ie@),
            _ => false,
        },
{
    let m: String;
    match ie.kind {
        ParseIssueKind::DocumentNotObject => {
            m = String::from_str("document root is not an object");
        },
        ParseIssueKind::CollectionsNotObject => {
            m = String::from_str("collections is not an object");
        },
        ParseIssueKind::EntryNotObject => {
            let mut d = dotted_path(&ie.path);
            d.append(" is not an object");
            m = d;
        },
        ParseIssueKind::TypeNotText => {
            let mut d = dotted_path(&ie.path);
            d.append(" has a non-string $type");
            m = d;
        },
        ParseIssueKind::DescriptionNotText => {
            let mut d = dotted_path(&ie.path);
            d.append(" has a non-string $description");
            m = d;
        },
    }
    OrchestratorError::Parse(m)
}

/// Flattens one entry found at `path`, as [`flat_entry`] describes.
#[verifier::loop_isolation(false)]
fn flatten_entry(path: Vec<String>, v: &RawValue) -> (r: Result<Vec<Token>, ParseIssue>)
    ensures
        match flat_entry(path.deep_view(), v@) {
            Result::Ok(ts) => match r {
                Result::Ok(out) => tokens_view(out@) == ts,
                Result::Err(_) => false,
            },
            Result::Err(im) => match r {
                Result::Ok(_) => false,
                Result::Err(ie) => ie@ == im,
            },
        },
    decreases *v, 1int,
{
    match v {
        RawValue::Object(entries) => {
            proof {
                lemma_object_model(entries@);
            }
            let value_key = String::from_str("$value");
            let got = obj_get(entries, &value_key);
            match got {
                Option::Some(val) => {
                    let type_key = String::from_str("$type");
                    let token_type: String;
                    match obj_get(entries, &type_key) {
                        Option::Some(RawValue::Text(t)) => {
                            token_type = t.clone();
                        },
                        Option::None => {
                            token_type = String::from_str("unknown");
                        },
                        Option::Some(_) => {
                            return Result::Err(
                                ParseIssue { path, kind: ParseIssueKind::TypeNotText },
                            );
                        },
                    }
                    let desc_key = String::from_str("$description");
                    let description: Option<String>;
                    match obj_get(entries, &desc_key) {
                        Option::Some(RawValue::Text(d)) => {
                            description = Option::Some(d.clone());
                        },
                        Option::None => {
                            description = Option::None;
                        },
                        Option::Some(_) => {
                            return Result::Err(
                                ParseIssue { path, kind: ParseIssueKind::DescriptionNotText },
                            );
                        },
                    }
                    let ghost expected = flat_token(path.deep_view(), object_model(entries@));
                    let value = clone_value(val);
                    let token = Token { path, token_type, value, description };
                    let mut out: Vec<Token> = Vec::new();
                    out.push(token);
                    proof {
                        assert(tokens_view(out@) =~= expected->Ok_0);
                    }
                    Result::Ok(out)
                },
                Option::None => {
                    let ghost pathv = path.deep_view();
                    let ghost em = object_model(entries@);
                    let mut acc: Vec<Token> = Vec::new();
                    proof {
                        assert(tokens_view(acc@) =~= Seq::<TokenModel>::empty());
                    }
                    let mut i: usize = 0;
                    while i < entries.len()
                        invariant
                            i <= entries.len(),
                            flat_group_upto(pathv, em, i as int) == Result::Ok::<
                                Seq<TokenModel>,
                                ParseIssueModel,
                            >(tokens_view(acc@)),
                        decreases entries.len() - i, 0int,
                    {
                        let mut child_path = clone_segments(&path);
                        child_path.push(entries[i].0.clone());
                        proof {
                            assert(child_path.deep_view() =~= pathv.push(em[i as int].0));
                        }
                        match flatten_entry(child_path, &entries[i].1) {
                            Result::Ok(mut ts) => {
                                let ghost old_acc = acc@;
                                let ghost tsv = ts@;
                                acc.append(&mut ts);
                                proof {
                                    assert(tokens_view(old_acc + tsv) =~= tokens_view(old_acc)
                                        + tokens_view(tsv));
                                }
                            },
                            Result::Err(ie) => {
                                proof {
                                    lemma_group_err_persists(
                                        pathv,
                                        em,
                                        i + 1,
                                        em.len() as int,
                                    );
                                }
                                return Result::Err(ie);
                            },
                        }
                        i = i + 1;
                    }
                    Result::Ok(acc)
                },
            }
        },
        _ => Result::Err(ParseIssue { path, kind: ParseIssueKind::EntryNotObject }),
    }
}

/// Flattens every collection, as [`flat_collections_upto`] describes.
#[verifier::loop_isolation(false)]
fn flatten_collections(cols: &Vec<(String, RawValue)>) -> (r: Result<Vec<Token>, ParseIssue>)
    ensures
        match flat_collections_upto(object_model(cols@), cols@.len() as int) {
            Result::Ok(ts) => match r {
                Result::Ok(out) => tokens_view(out@) == ts,
                Result::Err(_) => false,
            },
            Result::Err(im) => match r {
                Result::Ok(_) => false,
                Result::Err(ie) => ie@ == im,
            },
        },
{
    proof {
        lemma_object_model(cols@);
    }
    let ghost cm = object_model(cols@);
    let mut acc: Vec<Token> = Vec::new();
    proof {
        assert(tokens_view(acc@) =~= Seq::<TokenModel>::empty());
    }
    let mut i: usize = 0;
    while i < cols.len()
        invariant
            i <= cols.len(),
            flat_collections_upto(cm, i as int) == Result::Ok::<Seq<TokenModel>, ParseIssueModel>(
                tokens_view(acc@),
            ),
        decreases cols.len() - i,
    {
        let mut prefix: Vec<String> = Vec::new();
        prefix.push(cols[i].0.clone());
        proof {
            assert(prefix.deep_view() =~= seq![cm[i as int].0]);
        }
        match &cols[i].1 {
            RawValue::Object(ge) => {
                proof {
                    lemma_object_model(ge@);
                }
                match flatten_group(prefix, ge) {
                    Result::Ok(mut ts) => {
                        let ghost old_acc = acc@;
                        let ghost tsv = ts@;
                        acc.append(&mut ts);
                        proof {
                            assert(tokens_view(old_acc + tsv) =~= tokens_view(old_acc)
                                + tokens_view(tsv));
                        }
                    },
                    Result::Err(ie) => {
                        proof {
                            lemma_collections_err_persists(cm, i + 1, cm.len() as int);
                        }
                        return Result::Err(ie);
                    },
                }
            },
            _ => {
                proof {
                    lemma_collections_err_persists(cm, i + 1, cm.len() as int);
                }
                return Result::Err(ParseIssue { path: prefix, kind: ParseIssueKind::EntryNotObject });
            },
        }
        i = i + 1;
    }
    Result::Ok(acc)
}

/// Flattens the members of one group at `path`, in entry order.
#[verifier::loop_isolation(false)]
fn flatten_group(path: Vec<String>, entries: &Vec<(String, RawValue)>) -> (r: Result<
    Vec<Token>,
    ParseIssue,
>)
    ensures
        match flat_group_upto(path.deep_view(), object_model(entries@), entries@.len() as int) {
            Result::Ok(ts) => match r {
                Result::Ok(out) => tokens_view(out@) == ts,
                Result::Err(_) => false,
            },
            Result::Err(im) => match r {
                Result::Ok(_) => false,
                Result::Err(ie) => ie@ == im,
            },
        },
    decreases *entries, 0int,
{
    proof {
        lemma_object_model(entries@);
    }
    let ghost pathv = path.deep_view();
    let ghost em = object_model(entries@);
    let mut acc: Vec<Token> = Vec::new();
    proof {
        assert(tokens_view(acc@) =~= Seq::<TokenModel>::empty());
    }
    let mut i: usize = 0;
    while i < entries.len()
        invariant
            i <= entries.len(),
            flat_group_upto(pathv, em, i as int) == Result::Ok::<Seq<TokenModel>, ParseIssueModel>(
                tokens_view(acc@),
            ),
        decreases entries.len() - i, 1int,
    {
        let mut child_path = clone_segments(&path);
        child_path.push(entries[i].0.clone());
        proof {
            assert(child_path.deep_view() =~= pathv.push(em[i as int].0));
        }
        match flatten_entry(child_path, &entries[i].1) {
            Result::Ok(mut ts) => {
                let ghost old_acc = acc@;
                let ghost tsv = ts@;
                acc.append(&mut ts);
                proof {
                    assert(tokens_view(old_acc + tsv) =~= tokens_view(old_acc) + tokens_view(tsv));
                }
            },
            Result::Err(ie) => {
                proof {
                    lemma_group_err_persists(pathv, em, i + 1, em.len() as int);
                }
                return Result::Err(ie);
            },
        }
        i = i + 1;
    }
    Result::Ok(acc)
}

/// Flattens a whole document, as [`spec_flatten`] describes.
fn flatten_document(doc: &RawValue) -> (r: Result<Vec<Token>, ParseIssue>)
    ensures
        match spec_flatten(doc@) {
            Result::Ok(ts) => match r {
                Result::Ok(out) => tokens_view(out@) == ts,
                Result::Err(_) => false,
            },
            Result::Err(im) => match r {
                Result::Ok(_) => false,
                Result::Err(ie) => ie@ == im,
            },
        },
{
    match doc {
        RawValue::Object(entries) => {
            proof {
                lemma_object_model(entries@);
            }
            let collections_key = String::from_str("collections");
            match obj_get(entries, &collections_key) {
                Option::None => {
                    let out: Vec<Token> = Vec::new();
                    proof {
                        assert(tokens_view(out@) =~= Seq::<TokenModel>::empty());
                    }
                    Result::Ok(out)
                },
                Option::Some(RawValue::Object(cols)) => {
                    proof {
                        lemma_object_model(cols@);
                    }
                    flatten_collections(cols)
                },
                Option::Some(_) => {
                    let p: Vec<String> = Vec::new();
                    proof {
                        assert(p.deep_view() =~= Seq::<Seq<char>>::empty());
                    }
                    Result::Err(ParseIssue { path: p, kind: ParseIssueKind::CollectionsNotObject })
                },
            }
        },
        _ => {
            let p: Vec<String> = Vec::new();
            proof {
                assert(p.deep_view() =~= Seq::<Seq<char>>::empty());
            }
            Result::Err(ParseIssue { path: p, kind: ParseIssueKind::DocumentNotObject })
        },
    }
}


/// Strict lexicographic path order, decided character by character.
#[verifier::loop_isolation(false)]
fn str_lt_exec(a: &String, b: &String) -> (r: bool)
    ensures
        r == str_lt(a@, b@),
{
    let alen = a.as_str().unicode_len();
    let blen = b.as_str().unicode_len();
    let mut i: usize = 0;
    loop
        invariant
            i <= alen,
            i <= blen,
            alen == a@.len(),
            blen == b@.len(),
            str_lt(a@, b@) == str_lt_from(a@, b@, i as int),
        decreases blen - i,
    {
        if i >= blen {
            return false;
        }
        if i >= alen {
            return true;
        }
        let ca = a.as_str().get_char(i);
        let cb = b.as_str().get_char(i);
        if ca != cb {
            return ca < cb;
        }
        i = i + 1;
    }
}

/// Strict lexicographic path order, decided segment by segment.
#[verifier::loop_isolation(false)]
fn path_lt_exec(a: &Vec<String>, b: &Vec<String>) -> (r: bool)
    ensures
        r == path_lt(a.deep_view(), b.deep_view()),
{
    let ghost da = a.deep_view();
    let ghost db = b.deep_view();
    let mut i: usize = 0;
    loop
        invariant
            i <= a.len(),
            i <= b.len(),
            path_lt(da, db) == path_lt_from(da, db, i as int),
        decreases b.len() - i,
    {
        if i >= b.len() {
            return false;
        }
        if i >= a.len() {
            return true;
        }
        if a[i] == b[i] {
            i = i + 1;
        } else {
            return str_lt_exec(&a[i], &b[i]);
        }
    }
}

/// The stable insertion point for `t` in the sorted prefix.
#[verifier::loop_isolation(false)]
fn find_insert_pos(sorted: &Vec<Token>, t: &Token) -> (pos: usize)
    ensures
        pos as int == insert_pos(tokens_view(sorted@), t@, 0),
        pos <= sorted@.len(),
{
    let ghost sv = tokens_view(sorted@);
    let mut pos: usize = 0;
    loop
        invariant
            pos <= sorted.len(),
            insert_pos(sv, t@, 0) == insert_pos(sv, t@, pos as int),
        decreases sorted.len() - pos,
    {
        if pos >= sorted.len() {
            return pos;
        }
        if path_lt_exec(&t.path, &sorted[pos].path) {
            return pos;
        }
        pos = pos + 1;
    }
}

/// Stably sorts a token list by path, as [`spec_sort_tokens`] describes.
#[verifier::loop_isolation(false)]
pub fn sort_tokens(ts: Vec<Token>) -> (r: Vec<Token>)
    ensures
        tokens_view(r@) == spec_sort_tokens(tokens_view(ts@)),
{
    let ghost orig = tokens_view(ts@);
    let mut rest = ts;
    let mut out: Vec<Token> = Vec::new();
    proof {
        assert(tokens_view(out@) =~= Seq::<TokenModel>::empty());
        assert(tokens_view(rest@) =~= orig.subrange(0, orig.len() as int));
    }
    while rest.len() > 0
        invariant
            rest@.len() <= orig.len(),
            tokens_view(out@) == sort_upto(orig, orig.len() - rest@.len()),
            tokens_view(rest@) == orig.subrange(
                orig.len() - rest@.len(),
                orig.len() as int,
            ),
        decreases rest.len(),
    {
        let ghost k = orig.len() - rest@.len();
        let ghost old_rest = rest@;
        let t = rest.remove(0);
        proof {
            assert(t@ == tokens_view(old_rest)[0]);
            assert(t@ == orig[k as int]);
            assert(rest@ =~= old_rest.subrange(1, old_rest.len() as int));
            assert forall|j: int| 0 <= j < rest@.len() implies tokens_view(rest@)[j]
                == orig.subrange(k + 1, orig.len() as int)[j] by {
                assert(tokens_view(rest@)[j] == rest@[j]@);
                assert(rest@[j] == old_rest[j + 1]);
                assert(tokens_view(old_rest)[j + 1] == old_rest[j + 1]@);
                assert(tokens_view(old_rest)[j + 1] == orig.subrange(
                    k as int,
                    orig.len() as int,
                )[j + 1]);
            };
            assert(tokens_view(rest@) =~= orig.subrange(k + 1, orig.len() as int));
        }
        let pos = find_insert_pos(&out, &t);
        let ghost old_out = out@;
        out.insert(pos, t);
        proof {
            assert(tokens_view(old_out.insert(pos as int, t)) =~= tokens_view(old_out).insert(
                pos as int,
                t@,
            ));
            assert(sort_upto(orig, k + 1) == sort_upto(orig, k).insert(
                insert_pos(sort_upto(orig, k), orig[k as int], 0),
                orig[k as int],
            ));
        }
    }
    out
}

/// Normalizes a raw export document into the flat, path-sorted token list,
/// as [`spec_normalize`] describes: the token list when the document matches
/// the export shape, the first shape violation in entry order otherwise.
pub fn load_tokens_from_value(value: RawValue) -> (r: Result<Vec<Token>, OrchestratorError>)
    ensures
        match spec_normalize(value@) {
            Result::Ok(ts) => match r {
                Result::Ok(out) => tokens_view(out@) == ts && tokens_sorted(tokens_view(out@))
                    && tokens_view(out@).to_multiset() == spec_flatten(
                    value@,
                )->Ok_0.to_multiset(),
                Result::Err(_) => false,
            },
            Result::Err(im) => match r {
                Result::Ok(_) => false,
                Result::Err(e) => match e {
                    OrchestratorError::Parse(m) => m@ == issue_message(im),
                    _ => false,
                },
            },
        },
{
    match flatten_document(&value) {
        Result::Ok(flat) => {
            proof {
                lemma_sort_tokens_correct(tokens_view(flat@));
            }
            Result::Ok(sort_tokens(flat))
        },
        Result::Err(ie) => Result::Err(issue_to_error(ie)),
    }
}


/// The strict path order is asymmetric, position-wise.
proof fn lemma_str_lt_asym(a: Seq<char>, b: Seq<char>, i: int)
    requires
        0 <= i,
        str_lt_from(a, b, i),
    ensures
        !str_lt_from(b, a, i),
    decreases b.len() - i,
{
    if i < b.len() && i < a.len() && a[i] == b[i] {
        lemma_str_lt_asym(a, b, i + 1);
    }
}

/// The strict text order is transitive, position-wise.
proof fn lemma_str_lt_trans(a: Seq<char>, b: Seq<char>, c: Seq<char>, i: int)
    requires
        0 <= i,
        str_lt_from(a, b, i),
        str_lt_from(b, c, i),
    ensures
        str_lt_from(a, c, i),
    decreases c.len() - i,
{
    if i < c.len() && i < b.len() && i < a.len() && a[i] == b[i] && b[i] == c[i] {
        lemma_str_lt_trans(a, b, c, i + 1);
    }
}

/// The strict path order is asymmetric, segment-wise.
proof fn lemma_path_lt_asym(a: Seq<Seq<char>>, b: Seq<Seq<char>>, i: int)
    requires
        0 <= i,
        path_lt_from(a, b, i),
    ensures
        !path_lt_from(b, a, i),
    decreases b.len() - i,
{
    if i < b.len() && i < a.len() {
        if a[i] == b[i] {
            lemma_path_lt_asym(a, b, i + 1);
        } else {
            lemma_str_lt_asym(a[i], b[i], 0);
        }
    }
}

/// The strict path order is transitive, segment-wise.
proof fn lemma_path_lt_trans(a: Seq<Seq<char>>, b: Seq<Seq<char>>, c: Seq<Seq<char>>, i: int)
    requires
        0 <= i,
        path_lt_from(a, b, i),
        path_lt_from(b, c, i),
    ensures
        path_lt_from(a, c, i),
    decreases c.len() - i,
{
    if i < c.len() && i < b.len() && i < a.len() {
        if a[i] == b[i] && b[i] == c[i] {
            lemma_path_lt_trans(a, b, c, i + 1);
        } else if a[i] == b[i] {
            assert(str_lt(b[i], c[i]));
        } else if b[i] == c[i] {
            assert(str_lt(a[i], b[i]));
        } else {
            lemma_str_lt_trans(a[i], b[i], c[i], 0);
            if a[i] == c[i] {
                lemma_str_lt_asym(a[i], b[i], 0);
                lemma_str_lt_trans(b[i], c[i], a[i], 0);
            }
        }
    }
}

/// What the insertion point promises: everything before it is not above the
/// new token, and the element at it (if any) is strictly above it.
proof fn lemma_insert_pos_props(s: Seq<TokenModel>, t: TokenModel, i: int)
    requires
        0 <= i <= s.len(),
    ensures
        i <= insert_pos(s, t, i) <= s.len(),
        forall|j: int| i <= j < insert_pos(s, t, i) ==> !path_lt(t.path, (#[trigger] s[j]).path),
        insert_pos(s, t, i) < s.len() ==> path_lt(t.path, s[insert_pos(s, t, i)].path),
    decreases s.len() - i,
{
    if i < s.len() && !path_lt(t.path, s[i].path) {
        lemma_insert_pos_props(s, t, i + 1);
    }
}

/// Inserting at the insertion point keeps the list sorted.
proof fn lemma_insert_sorted(s: Seq<TokenModel>, t: TokenModel)
    requires
        tokens_sorted(s),
    ensures
        tokens_sorted(s.insert(insert_pos(s, t, 0), t)),
{
    let pos = insert_pos(s, t, 0);
    lemma_insert_pos_props(s, t, 0);
    s.insert_ensures(pos, t);
    let s2 = s.insert(pos, t);
    assert forall|i: int, j: int| 0 <= i < j < s2.len() implies !path_lt(
        (#[trigger] s2[j]).path,
        (#[trigger] s2[i]).path,
    ) by {
        if i < pos && j < pos {
            assert(s2[i] == s[i]);
            assert(s2[j] == s[j]);
        } else if i < pos && j == pos {
            assert(s2[i] == s[i]);
            assert(s2[j] == t);
            assert(!path_lt(t.path, s[i].path));
        } else if i < pos && j > pos {
            assert(s2[i] == s[i]);
            assert(s2[j] == s[j - 1]);
            assert(!path_lt(s[j - 1].path, s[i].path));
        } else if i == pos && j > pos {
            assert(s2[i] == t);
            assert(s2[j] == s[j - 1]);
            if path_lt(s[j - 1].path, t.path) {
                if pos < s.len() {
                    assert(path_lt(t.path, s[pos].path));
                    lemma_path_lt_trans(s[j - 1].path, t.path, s[pos].path, 0);
                    if j - 1 == pos {
                        lemma_path_lt_asym(s[pos].path, t.path, 0);
                        assert(false);
                    } else {
                        assert(!path_lt(s[j - 1].path, s[pos].path));
                        assert(false);
                    }
                } else {
                    assert(false);
                }
            }
        } else {
            assert(s2[i] == s[i - 1]);
            assert(s2[j] == s[j - 1]);
            assert(!path_lt(s[j - 1].path, s[i - 1].path));
        }
    };
}

/// Inserting anywhere adds exactly the one token to the multiset.
proof fn lemma_insert_multiset(s: Seq<TokenModel>, t: TokenModel, pos: int)
    requires
        0 <= pos <= s.len(),
    ensures
        s.insert(pos, t).to_multiset() =~= s.to_multiset().insert(t),
{
    broadcast use vstd::seq_lib::group_to_multiset_ensures;

    s.insert_ensures(pos, t);
    let s2 = s.insert(pos, t);
    assert(s2.remove(pos) =~= s);
    assert(s2.remove(pos).to_multiset() =~= s2.to_multiset().remove(s2[pos]));
    assert(s2.to_multiset().contains(t));
}

/// The ordering policy of normalization: sorting by path yields a list that
/// is sorted and holds exactly the original tokens. Together with the exact
/// postcondition of [`load_tokens_from_value`] this makes emission order a
/// function of the document alone.
pub proof fn lemma_sort_tokens_correct(ts: Seq<TokenModel>)
    ensures
        tokens_sorted(spec_sort_tokens(ts)),
        spec_sort_tokens(ts).to_multiset() == ts.to_multiset(),
        spec_sort_tokens(ts).len() == ts.len(),
{
    lemma_sort_upto_correct(ts, ts.len() as int);
    broadcast use vstd::seq_lib::group_to_multiset_ensures;

    assert(ts.subrange(0, ts.len() as int) =~= ts);
}

/// The sorted prefix is sorted and holds exactly the first `i` tokens.
proof fn lemma_sort_upto_correct(ts: Seq<TokenModel>, i: int)
    requires
        0 <= i <= ts.len(),
    ensures
        tokens_sorted(sort_upto(ts, i)),
        sort_upto(ts, i).to_multiset() == ts.subrange(0, i).to_multiset(),
        sort_upto(ts, i).len() == i,
    decreases i,
{
    broadcast use vstd::seq_lib::group_to_multiset_ensures;

    if i <= 0 {
        assert(ts.subrange(0, 0) =~= Seq::<TokenModel>::empty());
        assert(sort_upto(ts, 0).to_multiset() =~= ts.subrange(0, 0).to_multiset());
    } else {
        lemma_sort_upto_correct(ts, i - 1);
        let s = sort_upto(ts, i - 1);
        let t = ts[i - 1];
        lemma_insert_pos_props(s, t, 0);
        lemma_insert_sorted(s, t);
        lemma_insert_multiset(s, t, insert_pos(s, t, 0));
        assert(ts.subrange(0, i) =~= ts.subrange(0, i - 1).push(t));
        assert(ts.subrange(0, i - 1).push(t).to_multiset() =~= ts.subrange(
            0,
            i - 1,
        ).to_multiset().insert(t));
    }
}

} // verus!
