use vstd::prelude::*;

use crate::text::{decimal_string, dotted, indexed};

verus! {

broadcast use vstd::std_specs::vec::group_vec_axioms;

/// The shape that a JSON value is expected to have.
#[derive(Debug)]
pub enum TypeDef {
    Text,
    /// A string that carries markdown: checked like `Text`, described differently.
    Markdown,
    Number,
    Bool,
    List(Box<TypeDef>),
    Object(Vec<FieldDef>),
}

/// One declared field of an `Object` schema.
#[derive(Debug)]
pub struct FieldDef {
    pub name: String,
    pub ty: TypeDef,
}

/// An untyped JSON document. A number is kept as the text that `serde_json`
/// renders for the parsed number (`1e2` becomes `100.0`); the members
/// of an object are kept in order, and a key is looked up by its first member.
#[derive(Debug, PartialEq)]
pub enum JsonValue {
    Null,
    Bool(bool),
    Number(String),
    Str(String),
    Array(Vec<JsonValue>),
    Object(Vec<(String, JsonValue)>),
}

/// One violation of a schema, located by a path such as `$.list[2].field`.
#[derive(Debug, Clone, PartialEq)]
pub enum ValidationError {
    MissingField { path: String },
    TypeMismatch { path: String, expected: String, found: String },
}

/// The mathematical content of a `ValidationError`.
pub enum ErrorView {
    MissingField { path: Seq<char> },
    TypeMismatch { path: Seq<char>, expected: Seq<char>, found: Seq<char> },
}

impl View for ValidationError {
    type V = ErrorView;

    open spec fn view(&self) -> ErrorView {
        match self {
            ValidationError::MissingField { path } => ErrorView::MissingField { path: path@ },
            ValidationError::TypeMismatch { path, expected, found } => ErrorView::TypeMismatch {
                path: path@,
                expected: expected@,
                found: found@,
            },
        }
    }
}

pub open spec fn errors_view(errs: Seq<ValidationError>) -> Seq<ErrorView> {
    errs.map_values(|e: ValidationError| e@)
}

/// The name under which a value's kind appears in error messages.
pub open spec fn kind_name(v: JsonValue) -> Seq<char> {
    match v {
        JsonValue::Null => "null"@,
        JsonValue::Bool(_) => "boolean"@,
        JsonValue::Number(_) => "number"@,
        JsonValue::Str(_) => "string"@,
        JsonValue::Array(_) => "array"@,
        JsonValue::Object(_) => "object"@,
    }
}

/// The value of the first member of `entries` whose key is `key`.
pub open spec fn lookup(entries: Seq<(String, JsonValue)>, key: Seq<char>) -> Option<JsonValue>
    decreases entries.len(),
{
    if entries.len() == 0 {
        None
    } else if entries[0].0@ == key {
        Some(entries[0].1)
    } else {
        lookup(entries.drop_first(), key)
    }
}

pub open spec fn mismatch(path: Seq<char>, expected: Seq<char>, v: JsonValue) -> Seq<ErrorView> {
    seq![ErrorView::TypeMismatch { path, expected, found: kind_name(v) }]
}

/// Every violation of `ty` by `v`, with `v` found at `path`, in the order of
/// the schema's fields and of the list's elements.
pub open spec fn errors_of(ty: TypeDef, v: JsonValue, path: Seq<char>) -> Seq<ErrorView>
    decreases ty, 1nat, 0nat,
{
    match ty {
        TypeDef::Text | TypeDef::Markdown => if v is Str {
            seq![]
        } else {
            mismatch(path, "string"@, v)
        },
        TypeDef::Number => if v is Number {
            seq![]
        } else {
            mismatch(path, "number"@, v)
        },
        TypeDef::Bool => if v is Bool {
            seq![]
        } else {
            mismatch(path, "boolean"@, v)
        },
        TypeDef::List(_) => match v {
            JsonValue::Array(items) => item_errors(ty, items@, path, items@.len()),
            _ => mismatch(path, "array"@, v),
        },
        TypeDef::Object(fields) => match v {
            JsonValue::Object(entries) => field_errors(ty, entries@, path, fields@.len()),
            _ => mismatch(path, "object"@, v),
        },
    }
}

/// The violations of the first `n` elements of `items` against the element
/// schema of the list schema `ty`.
pub open spec fn item_errors(ty: TypeDef, items: Seq<JsonValue>, path: Seq<char>, n: nat) -> Seq<
    ErrorView,
>
    decreases ty, 0nat, n,
{
    match ty {
        TypeDef::List(elem) => if n == 0 || n > items.len() {
            seq![]
        } else {
            item_errors(ty, items, path, (n - 1) as nat) + errors_of(
                *elem,
                items[n - 1],
                indexed(path, (n - 1) as nat),
            )
        },
        _ => seq![],
    }
}

/// The violations of the first `n` declared fields of the object schema `ty`
/// by the members `entries`.
pub open spec fn field_errors(
    ty: TypeDef,
    entries: Seq<(String, JsonValue)>,
    path: Seq<char>,
    n: nat,
) -> Seq<ErrorView>
    decreases ty, 0nat, n,
{
    match ty {
        TypeDef::Object(fields) => if n == 0 || n > fields@.len() {
            seq![]
        } else {
            let f = fields@[n - 1];
            let p = dotted(path, f.name@);
            field_errors(ty, entries, path, (n - 1) as nat) + match lookup(entries, f.name@) {
                None => seq![ErrorView::MissingField { path: p }],
                Some(x) => errors_of(f.ty, x, p),
            }
        },
        _ => seq![],
    }
}

pub open spec fn root_path() -> Seq<char> {
    "$"@
}

/// Whether `part` occurs in `all` as a contiguous run.
pub open spec fn occurs_in(part: Seq<ErrorView>, all: Seq<ErrorView>) -> bool {
    exists|off: int| 0 <= off && off + part.len() <= all.len() && #[trigger] all.subrange(off, off + part.len()) == part
}

/// What the declared field `f` of an object contributes, the members being `entries`.
pub open spec fn field_part(f: FieldDef, entries: Seq<(String, JsonValue)>, path: Seq<char>) -> Seq<
    ErrorView,
> {
    match lookup(entries, f.name@) {
        None => seq![ErrorView::MissingField { path: dotted(path, f.name@) }],
        Some(x) => errors_of(f.ty, x, dotted(path, f.name@)),
    }
}

proof fn lemma_occurs_in_prefix(part: Seq<ErrorView>, pre: Seq<ErrorView>, post: Seq<ErrorView>)
    requires
        occurs_in(part, pre),
    ensures
        occurs_in(part, pre + post),
{
    let off = choose|off: int| 0 <= off && off + part.len() <= pre.len() && #[trigger] pre.subrange(off, off + part.len()) == part;
    assert((pre + post).subrange(off, off + part.len()) =~= pre.subrange(off, off + part.len()));
}

proof fn lemma_occurs_at_end(pre: Seq<ErrorView>, part: Seq<ErrorView>)
    ensures
        occurs_in(part, pre + part),
{
    let off = pre.len() as int;
    assert((pre + part).subrange(off, off + part.len()) =~= part);
}

proof fn lemma_field_part_in(ty: TypeDef, entries: Seq<(String, JsonValue)>, path: Seq<char>, n: nat, k: int)
    requires
        ty is Object,
        0 <= k < n <= ty->Object_0@.len(),
    ensures
        occurs_in(field_part(ty->Object_0@[k], entries, path), field_errors(ty, entries, path, n)),
    decreases n,
{
    let part = field_part(ty->Object_0@[k], entries, path);
    if k == n - 1 {
        lemma_occurs_at_end(field_errors(ty, entries, path, (n - 1) as nat), part);
    } else {
        lemma_field_part_in(ty, entries, path, (n - 1) as nat, k);
        lemma_occurs_in_prefix(
            part,
            field_errors(ty, entries, path, (n - 1) as nat),
            field_part(ty->Object_0@[n - 1], entries, path),
        );
    }
}

proof fn lemma_item_part_in(ty: TypeDef, items: Seq<JsonValue>, path: Seq<char>, n: nat, k: int)
    requires
        ty is List,
        0 <= k < n <= items.len(),
    ensures
        occurs_in(errors_of(*ty->List_0, items[k], indexed(path, k as nat)), item_errors(ty, items, path, n)),
    decreases n,
{
    let part = errors_of(*ty->List_0, items[k], indexed(path, k as nat));
    if k == n - 1 {
        lemma_occurs_at_end(item_errors(ty, items, path, (n - 1) as nat), part);
    } else {
        lemma_item_part_in(ty, items, path, (n - 1) as nat, k);
        lemma_occurs_in_prefix(
            part,
            item_errors(ty, items, path, (n - 1) as nat),
            errors_of(*ty->List_0, items[n - 1], indexed(path, (n - 1) as nat)),
        );
    }
}

/// One pass reports every declared field: each missing field gives its own
/// `MissingField`, and the violations inside each present field all appear,
/// whatever the other fields hold.
pub proof fn lemma_every_field_reported(ty: TypeDef, v: JsonValue, path: Seq<char>, k: int)
    requires
        ty is Object,
        v is Object,
        0 <= k < ty->Object_0@.len(),
    ensures
        occurs_in(field_part(ty->Object_0@[k], v->Object_0@, path), errors_of(ty, v, path)),
        lookup(v->Object_0@, ty->Object_0@[k].name@) is None ==> errors_of(ty, v, path).contains(
            ErrorView::MissingField { path: dotted(path, ty->Object_0@[k].name@) },
        ),
{
    let entries = v->Object_0@;
    let f = ty->Object_0@[k];
    lemma_field_part_in(ty, entries, path, ty->Object_0@.len(), k);
    if lookup(entries, f.name@) is None {
        let all = errors_of(ty, v, path);
        let part = field_part(f, entries, path);
        let off = choose|off: int| 0 <= off && off + part.len() <= all.len() && #[trigger] all.subrange(off, off + part.len()) == part;
        assert(all[off] == part[0]);
    }
}

/// One pass reports the violations of every element of a list, whatever the
/// other elements hold.
pub proof fn lemma_every_item_reported(ty: TypeDef, v: JsonValue, path: Seq<char>, k: int)
    requires
        ty is List,
        v is Array,
        0 <= k < v->Array_0@.len(),
    ensures
        occurs_in(errors_of(*ty->List_0, v->Array_0@[k], indexed(path, k as nat)), errors_of(ty, v, path)),
{
    lemma_item_part_in(ty, v->Array_0@, path, v->Array_0@.len(), k);
}

proof fn lemma_lookup_append(a: Seq<(String, JsonValue)>, extra: Seq<(String, JsonValue)>, key: Seq<char>)
    requires
        forall|j: int| 0 <= j < extra.len() ==> extra[j].0@ != key,
    ensures
        lookup(a + extra, key) == lookup(a, key),
    decreases a.len(),
{
    if a.len() == 0 {
        assert(a + extra =~= extra);
        lemma_lookup_absent(extra, key);
    } else {
        assert((a + extra).drop_first() =~= a.drop_first() + extra);
        lemma_lookup_append(a.drop_first(), extra, key);
    }
}

proof fn lemma_lookup_absent(entries: Seq<(String, JsonValue)>, key: Seq<char>)
    requires
        forall|j: int| 0 <= j < entries.len() ==> entries[j].0@ != key,
    ensures
        lookup(entries, key) is None,
    decreases entries.len(),
{
    if entries.len() > 0 {
        lemma_lookup_absent(entries.drop_first(), key);
    }
}

proof fn lemma_field_errors_append(
    ty: TypeDef,
    a: Seq<(String, JsonValue)>,
    extra: Seq<(String, JsonValue)>,
    path: Seq<char>,
    n: nat,
)
    requires
        ty is Object,
        n <= ty->Object_0@.len(),
        forall|j: int, k: int|
            0 <= j < extra.len() && 0 <= k < ty->Object_0@.len() ==> extra[j].0@
                != ty->Object_0@[k].name@,
    ensures
        field_errors(ty, a + extra, path, n) == field_errors(ty, a, path, n),
    decreases n,
{
    if n > 0 {
        lemma_field_errors_append(ty, a, extra, path, (n - 1) as nat);
        lemma_lookup_append(a, extra, ty->Object_0@[n - 1].name@);
    }
}

/// Members whose keys the object schema does not declare never cause an
/// error: an object value with such members added has the errors it had
/// without them.
pub proof fn lemma_extra_keys_ignored(ty: TypeDef, v: JsonValue, w: JsonValue, path: Seq<char>)
    requires
        ty is Object,
        v is Object,
        w is Object,
        w->Object_0@.subrange(0, v->Object_0@.len() as int) == v->Object_0@,
        v->Object_0@.len() <= w->Object_0@.len(),
        forall|j: int, k: int|
            v->Object_0@.len() <= j < w->Object_0@.len() && 0 <= k < ty->Object_0@.len()
                ==> w->Object_0@[j].0@ != ty->Object_0@[k].name@,
    ensures
        errors_of(ty, w, path) == errors_of(ty, v, path),
{
    let a = v->Object_0@;
    let extra = w->Object_0@.subrange(a.len() as int, w->Object_0@.len() as int);
    assert(a + extra =~= w->Object_0@);
    lemma_field_errors_append(ty, a, extra, path, ty->Object_0@.len());
}

/// When the first `n` fields of an object schema raise no error, neither does
/// any one of them.
pub proof fn lemma_no_field_errors(ty: TypeDef, entries: Seq<(String, JsonValue)>, path: Seq<char>, n: nat, k: int)
    requires
        ty is Object,
        0 <= k < n <= ty->Object_0@.len(),
        field_errors(ty, entries, path, n).len() == 0,
    ensures
        field_part(ty->Object_0@[k], entries, path).len() == 0,
    decreases n,
{
    if k < n - 1 {
        lemma_no_field_errors(ty, entries, path, (n - 1) as nat, k);
    }
}

/// When the first `n` elements of a list raise no error, neither does any one of them.
pub proof fn lemma_no_item_errors(ty: TypeDef, items: Seq<JsonValue>, path: Seq<char>, n: nat, k: int)
    requires
        ty is List,
        0 <= k < n <= items.len(),
        item_errors(ty, items, path, n).len() == 0,
    ensures
        errors_of(*ty->List_0, items[k], indexed(path, k as nat)).len() == 0,
    decreases n,
{
    if k < n - 1 {
        lemma_no_item_errors(ty, items, path, (n - 1) as nat, k);
    }
}

fn value_type_name(v: &JsonValue) -> (r: String)
    ensures
        r@ == kind_name(*v),
{
    match v {
        JsonValue::Null => String::from_str("null"),
        JsonValue::Bool(_) => String::from_str("boolean"),
        JsonValue::Number(_) => String::from_str("number"),
        JsonValue::Str(_) => String::from_str("string"),
        JsonValue::Array(_) => String::from_str("array"),
        JsonValue::Object(_) => String::from_str("object"),
    }
}

fn push_mismatch(errors: &mut Vec<ValidationError>, path: &String, expected: &str, v: &JsonValue)
    ensures
        errors_view(final(errors)@) == errors_view(old(errors)@) + mismatch(path@, expected@, *v),
{
    let e = ValidationError::TypeMismatch {
        path: path.clone(),
        expected: String::from_str(expected),
        found: value_type_name(v),
    };
    errors.push(e);
    assert(errors_view(errors@) =~= errors_view(old(errors)@) + mismatch(path@, expected@, *v));
}

fn find_member<'a>(entries: &'a Vec<(String, JsonValue)>, key: &String) -> (r: Option<
    &'a JsonValue,
>)
    ensures
        lookup(entries@, key@) == match r {
            Some(x) => Some(*x),
            None => None::<JsonValue>,
        },
{
    let mut i: usize = 0;
    assert(entries@.subrange(0, entries@.len() as int) =~= entries@);
    while i < entries.len()
        invariant
            i <= entries@.len(),
            lookup(entries@, key@) == lookup(entries@.subrange(i as int, entries@.len() as int), key@),
        decreases entries.len() - i,
    {
        let ghost rest = entries@.subrange(i as int, entries@.len() as int);
        if entries[i].0 == *key {
            return Some(&entries[i].1);
        }
        assert(rest.drop_first() =~= entries@.subrange(i + 1, entries@.len() as int));
        i = i + 1;
    }
    None
}

fn validate_inner(ty: &TypeDef, v: &JsonValue, path: &String, errors: &mut Vec<ValidationError>)
    ensures
        errors_view(final(errors)@) == errors_view(old(errors)@) + errors_of(*ty, *v, path@),
    decreases ty,
{
    match ty {
        TypeDef::Text | TypeDef::Markdown => {
            if !matches!(v, JsonValue::Str(_)) {
                push_mismatch(errors, path, "string", v);
            } else {
                assert(errors_view(errors@) =~= errors_view(old(errors)@) + errors_of(*ty, *v, path@));
            }
        },
        TypeDef::Number => {
            if !matches!(v, JsonValue::Number(_)) {
                push_mismatch(errors, path, "number", v);
            } else {
                assert(errors_view(errors@) =~= errors_view(old(errors)@) + errors_of(*ty, *v, path@));
            }
        },
        TypeDef::Bool => {
            if !matches!(v, JsonValue::Bool(_)) {
                push_mismatch(errors, path, "boolean", v);
            } else {
                assert(errors_view(errors@) =~= errors_view(old(errors)@) + errors_of(*ty, *v, path@));
            }
        },
        TypeDef::List(elem) => {
            match v {
                JsonValue::Array(items) => {
                    let ghost start = errors_view(errors@);
                    let mut i: usize = 0;
                    assert(start =~= start + item_errors(*ty, items@, path@, 0));
                    while i < items.len()
                        invariant
                            i <= items@.len(),
                            errors_view(errors@) == start + item_errors(*ty, items@, path@, i as nat),
                            start == errors_view(old(errors)@),
                            *ty == TypeDef::List(*elem),
                        decreases items.len() - i,
                    {
                        let child = indexed_path(path, i);
                        proof {
                            assert(decreases_to!(*ty => **elem));
                        }
                        validate_inner(elem, &items[i], &child, errors);
                        assert(item_errors(*ty, items@, path@, (i + 1) as nat) == item_errors(
                            *ty,
                            items@,
                            path@,
                            i as nat,
                        ) + errors_of(**elem, items@[i as int], indexed(path@, i as nat)));
                        i = i + 1;
                    }
                },
                _ => {
                    push_mismatch(errors, path, "array", v);
                },
            }
        },
        TypeDef::Object(fields) => {
            match v {
                JsonValue::Object(entries) => {
                    let ghost start = errors_view(errors@);
                    let mut i: usize = 0;
                    assert(start =~= start + field_errors(*ty, entries@, path@, 0));
                    while i < fields.len()
                        invariant
                            i <= fields@.len(),
                            errors_view(errors@) == start + field_errors(*ty, entries@, path@, i as nat),
                            start == errors_view(old(errors)@),
                            *ty == TypeDef::Object(*fields),
                        decreases fields.len() - i,
                    {
                        let f = &fields[i];
                        let child = dotted_path(path, &f.name);
                        let found = find_member(entries, &f.name);
                        let ghost before = errors_view(errors@);
                        let ghost piece = match lookup(entries@, f.name@) {
                            None => seq![ErrorView::MissingField { path: child@ }],
                            Some(x) => errors_of(f.ty, x, child@),
                        };
                        assert(field_errors(*ty, entries@, path@, (i + 1) as nat) == field_errors(
                            *ty,
                            entries@,
                            path@,
                            i as nat,
                        ) + piece);
                        match found {
                            None => {
                                errors.push(ValidationError::MissingField { path: child });
                            },
                            Some(x) => {
                                proof {
                                    assert(decreases_to!(*ty => fields@[i as int].ty)) by {
                                        assert(decreases_to!(*fields => fields@[i as int]));
                                    }
                                }
                                validate_inner(&f.ty, x, &child, errors);
                            },
                        }
                        assert(errors_view(errors@) =~= before + piece);
                        assert(errors_view(errors@) =~= start + field_errors(*ty, entries@, path@, (i + 1) as nat));
                        i = i + 1;
                    }
                },
                _ => {
                    push_mismatch(errors, path, "object", v);
                },
            }
        },
    }
}

/// `path` followed by `.name`.
fn dotted_path(path: &String, name: &String) -> (r: String)
    ensures
        r@ == dotted(path@, name@),
{
    let mut r = path.clone();
    r.append(".");
    r.append(name.as_str());
    r
}

/// `path` followed by `[i]`.
fn indexed_path(path: &String, i: usize) -> (r: String)
    ensures
        r@ == indexed(path@, i as nat),
{
    let mut r = path.clone();
    r.append("[");
    let d = decimal_string(i as u64);
    r.append(d.as_str());
    r.append("]");
    r
}

/// Checks `value` against `ty` and reports every violation, not only the first.
pub fn validate(ty: &TypeDef, value: &JsonValue) -> (r: Result<(), Vec<ValidationError>>)
    ensures
        match r {
            Ok(()) => errors_of(*ty, *value, root_path()).len() == 0,
            Err(errs) => errs@.len() > 0 && errors_view(errs@) == errors_of(
                *ty,
                *value,
                root_path(),
            ),
        },
{
    let mut errors: Vec<ValidationError> = Vec::new();
    let root = String::from_str("$");
    assert(errors_view(errors@) =~= Seq::<ErrorView>::empty());
    validate_inner(ty, value, &root, &mut errors);
    assert(errors_view(errors@) =~= errors_of(*ty, *value, root_path()));
    if errors.len() == 0 {
        Ok(())
    } else {
        Err(errors)
    }
}

} // verus!
