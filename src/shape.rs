use vstd::prelude::*;

use crate::text::{dotted, indexed};
use crate::types::{
    errors_of, field_part, lemma_no_field_errors, lemma_no_item_errors, lookup, FieldDef, JsonValue,
    TypeDef,
};

verus! {

broadcast use vstd::std_specs::vec::group_vec_axioms;

/// What a feature design is asked for.
#[derive(Debug, Clone, PartialEq)]
pub struct FeatureDesignInput {
    pub repo_summary: String,
    pub constraints: Vec<String>,
}

/// A feature design as the model returns it.
#[derive(Debug, Clone, PartialEq)]
pub struct FeatureDesignOutput {
    pub name: String,
    /// Markdown text.
    pub rationale: String,
    pub components: Vec<Component>,
    pub risks: Vec<String>,
}

#[derive(Debug, Clone, PartialEq)]
pub struct Component {
    pub id: String,
    pub responsibility: String,
    pub api: String,
}

/// What a formation is asked for.
#[derive(Debug, Clone, PartialEq)]
pub struct FormationInput {
    pub formation_description: String,
    pub unit_count: u32,
}

/// A point of a formation; each coordinate is kept as the text that
/// `serde_json` renders for the parsed number.
#[derive(Debug, Clone, PartialEq)]
pub struct Coordinate {
    pub x: String,
    pub y: String,
}

#[derive(Debug, Clone, PartialEq)]
pub struct FormationOutput {
    pub coordinates: Vec<Coordinate>,
}

pub open spec fn is_list_of_text(t: TypeDef) -> bool {
    match t {
        TypeDef::List(e) => *e is Text,
        _ => false,
    }
}

pub open spec fn is_component_typedef(t: TypeDef) -> bool {
    match t {
        TypeDef::Object(fs) => {
            &&& fs@.len() == 3
            &&& fs@[0].name@ == "id"@ && fs@[0].ty is Text
            &&& fs@[1].name@ == "responsibility"@ && fs@[1].ty is Text
            &&& fs@[2].name@ == "api"@ && fs@[2].ty is Markdown
        },
        _ => false,
    }
}

/// The schema of `FeatureDesignOutput`.
pub open spec fn is_feature_design_typedef(t: TypeDef) -> bool {
    match t {
        TypeDef::Object(fs) => {
            &&& fs@.len() == 4
            &&& fs@[0].name@ == "name"@ && fs@[0].ty is Text
            &&& fs@[1].name@ == "rationale"@ && fs@[1].ty is Markdown
            &&& fs@[2].name@ == "components"@ && match fs@[2].ty {
                TypeDef::List(e) => is_component_typedef(*e),
                _ => false,
            }
            &&& fs@[3].name@ == "risks"@ && is_list_of_text(fs@[3].ty)
        },
        _ => false,
    }
}

pub open spec fn is_point_typedef(t: TypeDef) -> bool {
    match t {
        TypeDef::Object(fs) => {
            &&& fs@.len() == 2
            &&& fs@[0].name@ == "x"@ && fs@[0].ty is Number
            &&& fs@[1].name@ == "y"@ && fs@[1].ty is Number
        },
        _ => false,
    }
}

/// The schema of `FormationOutput`.
pub open spec fn is_formation_typedef(t: TypeDef) -> bool {
    match t {
        TypeDef::Object(fs) => {
            &&& fs@.len() == 1
            &&& fs@[0].name@ == "coordinates"@ && match fs@[0].ty {
                TypeDef::List(e) => is_point_typedef(*e),
                _ => false,
            }
        },
        _ => false,
    }
}

fn field(name: &str, ty: TypeDef) -> (r: FieldDef)
    ensures
        r.name@ == name@,
        r.ty == ty,
{
    FieldDef { name: String::from_str(name), ty }
}

/// The schema that a feature design is checked against.
pub fn feature_design_output_typedef() -> (r: TypeDef)
    ensures
        is_feature_design_typedef(r),
{
    let component = TypeDef::Object(
        vec![
            field("id", TypeDef::Text),
            field("responsibility", TypeDef::Text),
            field("api", TypeDef::Markdown),
        ],
    );
    TypeDef::Object(
        vec![
            field("name", TypeDef::Text),
            field("rationale", TypeDef::Markdown),
            field("components", TypeDef::List(Box::new(component))),
            field("risks", TypeDef::List(Box::new(TypeDef::Text))),
        ],
    )
}

/// The schema that a formation is checked against.
pub fn formation_output_typedef() -> (r: TypeDef)
    ensures
        is_formation_typedef(r),
{
    let point = TypeDef::Object(vec![field("x", TypeDef::Number), field("y", TypeDef::Number)]);
    TypeDef::Object(vec![field("coordinates", TypeDef::List(Box::new(point)))])
}

/// The member `key` of an object value.
pub open spec fn member(v: JsonValue, key: Seq<char>) -> Option<JsonValue> {
    match v {
        JsonValue::Object(es) => lookup(es@, key),
        _ => None,
    }
}

pub open spec fn text_member(v: JsonValue, key: Seq<char>) -> Option<Seq<char>> {
    match member(v, key) {
        Some(JsonValue::Str(s)) => Some(s@),
        _ => None,
    }
}

pub open spec fn number_member(v: JsonValue, key: Seq<char>) -> Option<Seq<char>> {
    match member(v, key) {
        Some(JsonValue::Number(s)) => Some(s@),
        _ => None,
    }
}

pub open spec fn list_member(v: JsonValue, key: Seq<char>) -> Option<Seq<JsonValue>> {
    match member(v, key) {
        Some(JsonValue::Array(items)) => Some(items@),
        _ => None,
    }
}

pub open spec fn component_decodes(v: JsonValue, c: Component) -> bool {
    &&& text_member(v, "id"@) == Some(c.id@)
    &&& text_member(v, "responsibility"@) == Some(c.responsibility@)
    &&& text_member(v, "api"@) == Some(c.api@)
}

pub open spec fn component_decodable(v: JsonValue) -> bool {
    &&& text_member(v, "id"@) is Some
    &&& text_member(v, "responsibility"@) is Some
    &&& text_member(v, "api"@) is Some
}

/// `o` is what `v` holds, read as a feature design.
pub open spec fn feature_design_decodes(v: JsonValue, o: FeatureDesignOutput) -> bool {
    &&& text_member(v, "name"@) == Some(o.name@)
    &&& text_member(v, "rationale"@) == Some(o.rationale@)
    &&& list_member(v, "components"@) is Some
    &&& list_member(v, "components"@)->0.len() == o.components@.len()
    &&& forall|i: int|
        0 <= i < o.components@.len() ==> component_decodes(
            #[trigger] list_member(v, "components"@)->0[i],
            o.components@[i],
        )
    &&& list_member(v, "risks"@) is Some
    &&& list_member(v, "risks"@)->0.len() == o.risks@.len()
    &&& forall|i: int|
        0 <= i < o.risks@.len() ==> #[trigger] list_member(v, "risks"@)->0[i] is Str && list_member(
            v,
            "risks"@,
        )->0[i]->Str_0@ == o.risks@[i]@
}

/// `v` can be read as a feature design.
pub open spec fn feature_design_decodable(v: JsonValue) -> bool {
    &&& text_member(v, "name"@) is Some
    &&& text_member(v, "rationale"@) is Some
    &&& list_member(v, "components"@) is Some
    &&& forall|i: int|
        0 <= i < list_member(v, "components"@)->0.len() ==> component_decodable(
            #[trigger] list_member(v, "components"@)->0[i],
        )
    &&& list_member(v, "risks"@) is Some
    &&& forall|i: int|
        0 <= i < list_member(v, "risks"@)->0.len() ==> #[trigger] list_member(v, "risks"@)->0[i] is Str
}

pub open spec fn coordinate_decodes(v: JsonValue, c: Coordinate) -> bool {
    &&& number_member(v, "x"@) == Some(c.x@)
    &&& number_member(v, "y"@) == Some(c.y@)
}

pub open spec fn coordinate_decodable(v: JsonValue) -> bool {
    &&& number_member(v, "x"@) is Some
    &&& number_member(v, "y"@) is Some
}

/// `o` is what `v` holds, read as a formation.
pub open spec fn formation_decodes(v: JsonValue, o: FormationOutput) -> bool {
    &&& list_member(v, "coordinates"@) is Some
    &&& list_member(v, "coordinates"@)->0.len() == o.coordinates@.len()
    &&& forall|i: int|
        0 <= i < o.coordinates@.len() ==> coordinate_decodes(
            #[trigger] list_member(v, "coordinates"@)->0[i],
            o.coordinates@[i],
        )
}

/// `v` can be read as a formation.
pub open spec fn formation_decodable(v: JsonValue) -> bool {
    &&& list_member(v, "coordinates"@) is Some
    &&& forall|i: int|
        0 <= i < list_member(v, "coordinates"@)->0.len() ==> coordinate_decodable(
            #[trigger] list_member(v, "coordinates"@)->0[i],
        )
}

/// The declared field `k` of a valid object value is present and meets its
/// own schema.
proof fn lemma_valid_member(ty: TypeDef, v: JsonValue, path: Seq<char>, k: int)
    requires
        ty is Object,
        0 <= k < ty->Object_0@.len(),
        errors_of(ty, v, path).len() == 0,
    ensures
        v is Object,
        member(v, ty->Object_0@[k].name@) is Some,
        errors_of(
            ty->Object_0@[k].ty,
            member(v, ty->Object_0@[k].name@)->0,
            dotted(path, ty->Object_0@[k].name@),
        ).len() == 0,
{
    lemma_no_field_errors(ty, v->Object_0@, path, ty->Object_0@.len(), k);
    let f = ty->Object_0@[k];
    assert(field_part(f, v->Object_0@, path).len() == 0);
}

/// Every element of a valid list value meets the element schema.
proof fn lemma_valid_items(ty: TypeDef, v: JsonValue, path: Seq<char>)
    requires
        ty is List,
        errors_of(ty, v, path).len() == 0,
    ensures
        v is Array,
        forall|k: int|
            0 <= k < v->Array_0@.len() ==> errors_of(
                *ty->List_0,
                #[trigger] v->Array_0@[k],
                indexed(path, k as nat),
            ).len() == 0,
{
    assert forall|k: int| 0 <= k < v->Array_0@.len() implies errors_of(
        *ty->List_0,
        #[trigger] v->Array_0@[k],
        indexed(path, k as nat),
    ).len() == 0 by {
        lemma_no_item_errors(ty, v->Array_0@, path, v->Array_0@.len(), k);
    }
}

/// A value that meets the feature design schema can be read as a feature design.
pub proof fn lemma_valid_feature_design_decodable(schema: TypeDef, v: JsonValue, path: Seq<char>)
    requires
        is_feature_design_typedef(schema),
        errors_of(schema, v, path).len() == 0,
    ensures
        feature_design_decodable(v),
{
    let fs = schema->Object_0@;
    lemma_valid_member(schema, v, path, 0);
    lemma_valid_member(schema, v, path, 1);
    lemma_valid_member(schema, v, path, 2);
    lemma_valid_member(schema, v, path, 3);
    let comps = member(v, "components"@)->0;
    let comp_ty = *fs[2].ty->List_0;
    let cpath = dotted(path, "components"@);
    lemma_valid_items(fs[2].ty, comps, cpath);
    assert forall|i: int| 0 <= i < list_member(v, "components"@)->0.len() implies component_decodable(
        #[trigger] list_member(v, "components"@)->0[i],
    ) by {
        let item = comps->Array_0@[i];
        let ipath = indexed(cpath, i as nat);
        assert(errors_of(comp_ty, item, ipath).len() == 0);
        lemma_valid_member(comp_ty, item, ipath, 0);
        lemma_valid_member(comp_ty, item, ipath, 1);
        lemma_valid_member(comp_ty, item, ipath, 2);
    }
    let risks = member(v, "risks"@)->0;
    lemma_valid_items(fs[3].ty, risks, dotted(path, "risks"@));
}

/// A value that meets the formation schema can be read as a formation.
pub proof fn lemma_valid_formation_decodable(schema: TypeDef, v: JsonValue, path: Seq<char>)
    requires
        is_formation_typedef(schema),
        errors_of(schema, v, path).len() == 0,
    ensures
        formation_decodable(v),
{
    let fs = schema->Object_0@;
    lemma_valid_member(schema, v, path, 0);
    let points = member(v, "coordinates"@)->0;
    let point_ty = *fs[0].ty->List_0;
    let ppath = dotted(path, "coordinates"@);
    lemma_valid_items(fs[0].ty, points, ppath);
    assert forall|i: int| 0 <= i < list_member(v, "coordinates"@)->0.len() implies coordinate_decodable(
        #[trigger] list_member(v, "coordinates"@)->0[i],
    ) by {
        let item = points->Array_0@[i];
        let ipath = indexed(ppath, i as nat);
        assert(errors_of(point_ty, item, ipath).len() == 0);
        lemma_valid_member(point_ty, item, ipath, 0);
        lemma_valid_member(point_ty, item, ipath, 1);
    }
}

fn get_member<'a>(v: &'a JsonValue, key: &str) -> (r: Option<&'a JsonValue>)
    ensures
        member(*v, key@) == match r {
            Some(x) => Some(*x),
            None => None::<JsonValue>,
        },
{
    match v {
        JsonValue::Object(entries) => {
            let k = String::from_str(key);
            let mut i: usize = 0;
            assert(entries@.subrange(0, entries@.len() as int) =~= entries@);
            while i < entries.len()
                invariant
                    i <= entries@.len(),
                    k@ == key@,
                    *v == JsonValue::Object(*entries),
                    lookup(entries@, key@) == lookup(
                        entries@.subrange(i as int, entries@.len() as int),
                        key@,
                    ),
                decreases entries.len() - i,
            {
                let ghost rest = entries@.subrange(i as int, entries@.len() as int);
                if entries[i].0 == k {
                    return Some(&entries[i].1);
                }
                assert(rest.drop_first() =~= entries@.subrange(i + 1, entries@.len() as int));
                i = i + 1;
            }
            None
        },
        _ => None,
    }
}

fn get_text(v: &JsonValue, key: &str) -> (r: Option<String>)
    ensures
        match r {
            Some(s) => text_member(*v, key@) == Some(s@),
            None => text_member(*v, key@) is None,
        },
{
    match get_member(v, key) {
        Some(JsonValue::Str(s)) => Some(s.clone()),
        _ => None,
    }
}

fn get_number(v: &JsonValue, key: &str) -> (r: Option<String>)
    ensures
        match r {
            Some(s) => number_member(*v, key@) == Some(s@),
            None => number_member(*v, key@) is None,
        },
{
    match get_member(v, key) {
        Some(JsonValue::Number(s)) => Some(s.clone()),
        _ => None,
    }
}

fn get_list<'a>(v: &'a JsonValue, key: &str) -> (r: Option<&'a Vec<JsonValue>>)
    ensures
        match r {
            Some(items) => list_member(*v, key@) == Some(items@),
            None => list_member(*v, key@) is None,
        },
{
    match get_member(v, key) {
        Some(JsonValue::Array(items)) => Some(items),
        _ => None,
    }
}

fn decode_component(v: &JsonValue) -> (r: Option<Component>)
    ensures
        r is Some <==> component_decodable(*v),
        r is Some ==> component_decodes(*v, r->0),
{
    let id = get_text(v, "id");
    let responsibility = get_text(v, "responsibility");
    let api = get_text(v, "api");
    match (id, responsibility, api) {
        (Some(id), Some(responsibility), Some(api)) => Some(Component { id, responsibility, api }),
        _ => None,
    }
}

/// Reads a feature design out of a JSON value.
pub fn decode_feature_design(v: &JsonValue) -> (r: Option<FeatureDesignOutput>)
    ensures
        r is Some <==> feature_design_decodable(*v),
        r is Some ==> feature_design_decodes(*v, r->0),
{
    let name = match get_text(v, "name") {
        Some(s) => s,
        None => return None,
    };
    let rationale = match get_text(v, "rationale") {
        Some(s) => s,
        None => return None,
    };
    let items = match get_list(v, "components") {
        Some(items) => items,
        None => return None,
    };
    let mut components: Vec<Component> = Vec::new();
    let mut i: usize = 0;
    while i < items.len()
        invariant
            i <= items@.len(),
            list_member(*v, "components"@) == Some(items@),
            components@.len() == i,
            forall|j: int| 0 <= j < i ==> component_decodes(items@[j], #[trigger] components@[j]),
            forall|j: int| 0 <= j < i ==> component_decodable(#[trigger] items@[j]),
        decreases items.len() - i,
    {
        match decode_component(&items[i]) {
            Some(c) => components.push(c),
            None => {
                assert(!component_decodable(list_member(*v, "components"@)->0[i as int]));
                return None;
            },
        }
        i = i + 1;
    }
    let list = match get_list(v, "risks") {
        Some(list) => list,
        None => return None,
    };
    let mut risks: Vec<String> = Vec::new();
    let mut k: usize = 0;
    while k < list.len()
        invariant
            k <= list@.len(),
            list_member(*v, "risks"@) == Some(list@),
            risks@.len() == k,
            forall|j: int| 0 <= j < k ==> (#[trigger] list@[j]) is Str && list@[j]->Str_0@ == risks@[j]@,
        decreases list.len() - k,
    {
        match &list[k] {
            JsonValue::Str(s) => risks.push(s.clone()),
            _ => {
                assert(!(list_member(*v, "risks"@)->0[k as int] is Str));
                return None;
            },
        }
        k = k + 1;
    }
    Some(FeatureDesignOutput { name, rationale, components, risks })
}

fn decode_coordinate(v: &JsonValue) -> (r: Option<Coordinate>)
    ensures
        r is Some <==> coordinate_decodable(*v),
        r is Some ==> coordinate_decodes(*v, r->0),
{
    let x = get_number(v, "x");
    let y = get_number(v, "y");
    match (x, y) {
        (Some(x), Some(y)) => Some(Coordinate { x, y }),
        _ => None,
    }
}

/// Reads a formation out of a JSON value.
pub fn decode_formation(v: &JsonValue) -> (r: Option<FormationOutput>)
    ensures
        r is Some <==> formation_decodable(*v),
        r is Some ==> formation_decodes(*v, r->0),
{
    let items = match get_list(v, "coordinates") {
        Some(items) => items,
        None => return None,
    };
    let mut coordinates: Vec<Coordinate> = Vec::new();
    let mut i: usize = 0;
    while i < items.len()
        invariant
            i <= items@.len(),
            list_member(*v, "coordinates"@) == Some(items@),
            coordinates@.len() == i,
            forall|j: int| 0 <= j < i ==> coordinate_decodes(items@[j], #[trigger] coordinates@[j]),
            forall|j: int| 0 <= j < i ==> coordinate_decodable(#[trigger] items@[j]),
        decreases items.len() - i,
    {
        match decode_coordinate(&items[i]) {
            Some(c) => coordinates.push(c),
            None => {
                assert(!coordinate_decodable(list_member(*v, "coordinates"@)->0[i as int]));
                return None;
            },
        }
        i = i + 1;
    }
    Some(FormationOutput { coordinates })
}

} // verus!
