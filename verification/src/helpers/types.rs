//! A set of primitive types, kept as one flag per type.
//!
//! The flags mirror the bit encoding of `PrimitiveType`: adding `Number`
//! raises the `Integer` flag as well, so that an integer instance is always
//! admitted where numbers are.  `contains(Integer)` therefore answers
//! whether integers are admitted, while `contains(Number)` asks for the
//! `Number` flag itself.

use crate::json::{avs, lemma_jv_arr, lemma_jv_obj, obj_get, okv_get, Json, JsonV};
use crate::primitive_type::{spec_type_name, spec_type_of_name, PrimitiveType};
use vstd::prelude::*;

verus! {

/// A subset of the seven primitive types.
#[derive(Clone, Copy, Debug, PartialEq, Eq, Structural)]
pub struct PrimitiveTypesBitMap {
    pub arr: bool,
    pub boo: bool,
    pub int: bool,
    pub nul: bool,
    pub num: bool,
    pub obj: bool,
    pub stri: bool,
}

impl PrimitiveTypesBitMap {
    /// The empty set.
    pub open spec fn spec_none() -> Self {
        PrimitiveTypesBitMap {
            arr: false,
            boo: false,
            int: false,
            nul: false,
            num: false,
            obj: false,
            stri: false,
        }
    }

    /// The set of all seven types.
    pub open spec fn spec_all() -> Self {
        PrimitiveTypesBitMap {
            arr: true,
            boo: true,
            int: true,
            nul: true,
            num: true,
            obj: true,
            stri: true,
        }
    }

    /// The set with the flags of `pt` raised: `Number` raises `Integer` too.
    pub open spec fn spec_add(self, pt: PrimitiveType) -> Self {
        match pt {
            PrimitiveType::Array => Self { arr: true, ..self },
            PrimitiveType::Boolean => Self { boo: true, ..self },
            PrimitiveType::Integer => Self { int: true, ..self },
            PrimitiveType::Null => Self { nul: true, ..self },
            PrimitiveType::Number => Self { int: true, num: true, ..self },
            PrimitiveType::Object => Self { obj: true, ..self },
            PrimitiveType::String => Self { stri: true, ..self },
        }
    }

    /// Membership: `Integer` goes by its own flag, which `Number` raises.
    pub open spec fn spec_contains(self, pt: PrimitiveType) -> bool {
        match pt {
            PrimitiveType::Array => self.arr,
            PrimitiveType::Boolean => self.boo,
            PrimitiveType::Integer => self.int,
            PrimitiveType::Null => self.nul,
            PrimitiveType::Number => self.num,
            PrimitiveType::Object => self.obj,
            PrimitiveType::String => self.stri,
        }
    }

    /// The set with the flags of `pt` cleared: `Number` clears `Integer` too.
    pub open spec fn spec_remove(self, pt: PrimitiveType) -> Self {
        match pt {
            PrimitiveType::Array => Self { arr: false, ..self },
            PrimitiveType::Boolean => Self { boo: false, ..self },
            PrimitiveType::Integer => Self { int: false, ..self },
            PrimitiveType::Null => Self { nul: false, ..self },
            PrimitiveType::Number => Self { int: false, num: false, ..self },
            PrimitiveType::Object => Self { obj: false, ..self },
            PrimitiveType::String => Self { stri: false, ..self },
        }
    }

    /// The set difference `self \ other`, flag by flag.
    pub open spec fn spec_remove_all(self, other: Self) -> Self {
        PrimitiveTypesBitMap {
            arr: self.arr && !other.arr,
            boo: self.boo && !other.boo,
            int: self.int && !other.int,
            nul: self.nul && !other.nul,
            num: self.num && !other.num,
            obj: self.obj && !other.obj,
            stri: self.stri && !other.stri,
        }
    }

    /// The intersection, flag by flag.
    pub open spec fn spec_intersect(self, other: Self) -> Self {
        PrimitiveTypesBitMap {
            arr: self.arr && other.arr,
            boo: self.boo && other.boo,
            int: self.int && other.int,
            nul: self.nul && other.nul,
            num: self.num && other.num,
            obj: self.obj && other.obj,
            stri: self.stri && other.stri,
        }
    }

    pub open spec fn spec_is_empty(self) -> bool {
        self == Self::spec_none()
    }

    pub open spec fn spec_is_complete(self) -> bool {
        self == Self::spec_all()
    }

    /// Whether a flag outside those of `pt` is raised.
    pub open spec fn spec_has_other_than(self, pt: PrimitiveType) -> bool {
        !(self.spec_remove(pt) == Self::spec_none())
    }

    /// The empty set.
    pub fn none() -> (r: Self)
        ensures
            r == Self::spec_none(),
    {
        PrimitiveTypesBitMap {
            arr: false,
            boo: false,
            int: false,
            nul: false,
            num: false,
            obj: false,
            stri: false,
        }
    }

    /// The set of all seven types.
    pub fn all() -> (r: Self)
        ensures
            r == Self::spec_all(),
    {
        PrimitiveTypesBitMap {
            arr: true,
            boo: true,
            int: true,
            nul: true,
            num: true,
            obj: true,
            stri: true,
        }
    }

    /// Raises the flags of `pt`.
    pub fn add(self, pt: PrimitiveType) -> (r: Self)
        ensures
            r == self.spec_add(pt),
    {
        match pt {
            PrimitiveType::Array => Self { arr: true, ..self },
            PrimitiveType::Boolean => Self { boo: true, ..self },
            PrimitiveType::Integer => Self { int: true, ..self },
            PrimitiveType::Null => Self { nul: true, ..self },
            PrimitiveType::Number => Self { int: true, num: true, ..self },
            PrimitiveType::Object => Self { obj: true, ..self },
            PrimitiveType::String => Self { stri: true, ..self },
        }
    }

    /// Whether `pt` is admitted by the set.
    pub fn contains(self, pt: PrimitiveType) -> (r: bool)
        ensures
            r == self.spec_contains(pt),
    {
        match pt {
            PrimitiveType::Array => self.arr,
            PrimitiveType::Boolean => self.boo,
            PrimitiveType::Integer => self.int,
            PrimitiveType::Null => self.nul,
            PrimitiveType::Number => self.num,
            PrimitiveType::Object => self.obj,
            PrimitiveType::String => self.stri,
        }
    }

    /// Clears the flags of `pt`.
    pub fn remove(&mut self, pt: PrimitiveType)
        ensures
            *final(self) == old(self).spec_remove(pt),
    {
        *self = match pt {
            PrimitiveType::Array => Self { arr: false, ..*self },
            PrimitiveType::Boolean => Self { boo: false, ..*self },
            PrimitiveType::Integer => Self { int: false, ..*self },
            PrimitiveType::Null => Self { nul: false, ..*self },
            PrimitiveType::Number => Self { int: false, num: false, ..*self },
            PrimitiveType::Object => Self { obj: false, ..*self },
            PrimitiveType::String => Self { stri: false, ..*self },
        };
    }

    /// Clears every flag raised in `other`.
    pub fn remove_all(&mut self, other: Self)
        ensures
            *final(self) == old(self).spec_remove_all(other),
    {
        *self =
        PrimitiveTypesBitMap {
            arr: self.arr && !other.arr,
            boo: self.boo && !other.boo,
            int: self.int && !other.int,
            nul: self.nul && !other.nul,
            num: self.num && !other.num,
            obj: self.obj && !other.obj,
            stri: self.stri && !other.stri,
        };
    }

    /// The intersection of the two sets.
    pub fn intersect(self, other: Self) -> (r: Self)
        ensures
            r == self.spec_intersect(other),
    {
        PrimitiveTypesBitMap {
            arr: self.arr && other.arr,
            boo: self.boo && other.boo,
            int: self.int && other.int,
            nul: self.nul && other.nul,
            num: self.num && other.num,
            obj: self.obj && other.obj,
            stri: self.stri && other.stri,
        }
    }

    /// Whether no flag is raised.
    pub fn is_empty(self) -> (r: bool)
        ensures
            r == self.spec_is_empty(),
    {
        !(self.arr || self.boo || self.int || self.nul || self.num || self.obj || self.stri)
    }

    /// Whether all seven flags are raised.
    pub fn is_complete(self) -> (r: bool)
        ensures
            r == self.spec_is_complete(),
    {
        self.arr && self.boo && self.int && self.nul && self.num && self.obj && self.stri
    }

    /// Whether a flag outside those of `pt` is raised.
    pub fn has_other_primitive_types_other_than(self, pt: PrimitiveType) -> (r: bool)
        ensures
            r == self.spec_has_other_than(pt),
    {
        let mut c = self;
        c.remove(pt);
        !c.is_empty()
    }
}

/// The set described by a `type` keyword value: a missing keyword admits
/// everything, a name admits that type, an array of names their union, and
/// anything else admits nothing.
pub open spec fn spec_types_of_type_value(t: Option<JsonV>) -> PrimitiveTypesBitMap {
    match t {
        None => PrimitiveTypesBitMap::spec_all(),
        Some(JsonV::Str(s)) => match spec_type_of_name(s) {
            Some(pt) => PrimitiveTypesBitMap::spec_none().spec_add(pt),
            None => PrimitiveTypesBitMap::spec_none(),
        },
        Some(JsonV::Arr(elems)) => spec_types_of_name_list(elems),
        Some(_) => PrimitiveTypesBitMap::spec_none(),
    }
}

/// The union of the types named by the string elements of a list; other
/// elements are passed over.
pub open spec fn spec_types_of_name_list(elems: Seq<JsonV>) -> PrimitiveTypesBitMap
    decreases elems.len(),
{
    if elems.len() == 0 {
        PrimitiveTypesBitMap::spec_none()
    } else {
        let rest = spec_types_of_name_list(elems.drop_last());
        match elems.last() {
            JsonV::Str(s) => match spec_type_of_name(s) {
                Some(pt) => rest.spec_add(pt),
                None => rest,
            },
            _ => rest,
        }
    }
}

/// The set described by a whole schema: `true` admits everything, an object
/// goes by its `type` keyword, anything else admits nothing.
pub open spec fn spec_types_of_schema(s: JsonV) -> PrimitiveTypesBitMap {
    match s {
        JsonV::Bool(true) => PrimitiveTypesBitMap::spec_all(),
        JsonV::Obj(m) => spec_types_of_type_value(okv_get(m, "type"@)),
        _ => PrimitiveTypesBitMap::spec_none(),
    }
}

impl PrimitiveTypesBitMap {
    /// The set described by a `type` keyword value.
    pub fn from_schema_value(schema_value: Option<&Json>) -> (r: Self)
        ensures
            r == spec_types_of_type_value(
                match schema_value {
                    Some(v) => Some(v@),
                    None => None,
                },
            ),
    {
        match schema_value {
            None => Self::all(),
            Some(Json::Str(s)) => {
                match PrimitiveType::from_name(s.as_str()) {
                    Some(pt) => Self::none().add(pt),
                    None => Self::none(),
                }
            },
            Some(Json::Arr(elems)) => {
                let mut r = Self::none();
                let mut i: usize = 0;
                while i < elems.len()
                    invariant
                        0 <= i <= elems@.len(),
                        r == spec_types_of_name_list(avs(elems@).take(i as int)),
                    decreases elems@.len() - i,
                {
                    proof {
                        assert(avs(elems@).take(i + 1).drop_last() =~= avs(elems@).take(i as int));
                        assert(avs(elems@).take(i + 1).last() == jv(elems@[i as int]));
                    }
                    match &elems[i] {
                        Json::Str(s) => {
                            match PrimitiveType::from_name(s.as_str()) {
                                Some(pt) => {
                                    r = r.add(pt);
                                },
                                None => (),
                            }
                        },
                        _ => (),
                    }
                    i += 1;
                }
                proof {
                    assert(avs(elems@).take(elems@.len() as int) =~= avs(elems@));
                    assert(schema_value.unwrap()@ == JsonV::Arr(avs(elems@))) by {
                        lemma_jv_arr(*elems);
                    }
                }
                r
            },
            Some(_) => Self::none(),
        }
    }

    /// The set described by a whole schema.
    pub fn from_schema(schema: &Json) -> (r: Self)
        ensures
            r == spec_types_of_schema(schema@),
    {
        match schema {
            Json::Bool(b) => {
                if *b {
                    Self::all()
                } else {
                    Self::none()
                }
            },
            Json::Obj(m) => {
                proof {
                    lemma_jv_obj(*m);
                }
                Self::from_schema_value(obj_get(m, "type"))
            },
            _ => Self::none(),
        }
    }
}

/// The canonical `type` value of a set: nothing for the empty or the full
/// set; otherwise the names of the raised flags, with `integer` dropped when
/// `number` is present, as one name or as an array of names.
pub open spec fn spec_type_value_of_types(b: PrimitiveTypesBitMap) -> Option<JsonV> {
    if b.spec_is_empty() || b.spec_is_complete() {
        None
    } else {
        let c = if b.int && b.num {
            PrimitiveTypesBitMap { int: false, ..b }
        } else {
            b
        };
        let names = spec_name_list(c);
        if names.len() == 1 {
            Some(names[0])
        } else {
            Some(JsonV::Arr(names))
        }
    }
}

/// The names of the raised flags, in the fixed canonical order.
pub open spec fn spec_name_list(b: PrimitiveTypesBitMap) -> Seq<JsonV> {
    let e = Seq::<JsonV>::empty();
    (if b.arr {
        seq![JsonV::Str(spec_type_name(PrimitiveType::Array))]
    } else {
        e
    }) + (if b.boo {
        seq![JsonV::Str(spec_type_name(PrimitiveType::Boolean))]
    } else {
        e
    }) + (if b.int {
        seq![JsonV::Str(spec_type_name(PrimitiveType::Integer))]
    } else {
        e
    }) + (if b.nul {
        seq![JsonV::Str(spec_type_name(PrimitiveType::Null))]
    } else {
        e
    }) + (if b.num {
        seq![JsonV::Str(spec_type_name(PrimitiveType::Number))]
    } else {
        e
    }) + (if b.obj {
        seq![JsonV::Str(spec_type_name(PrimitiveType::Object))]
    } else {
        e
    }) + (if b.stri {
        seq![JsonV::Str(spec_type_name(PrimitiveType::String))]
    } else {
        e
    })
}

impl PrimitiveTypesBitMap {
    /// The canonical `type` value of this set, if one is called for.
    #[verifier::rlimit(100)]
    #[verifier::spinoff_prover]
    pub fn to_schema_value(self) -> (r: Option<Json>)
        ensures
            match r {
                Some(v) => spec_type_value_of_types(self) == Some(v@),
                None => spec_type_value_of_types(self) is None,
            },
    {
        if self.is_empty() || self.is_complete() {
            return None;
        }
        let c = if self.int && self.num {
            PrimitiveTypesBitMap { int: false, ..self }
        } else {
            self
        };
        let ghost ev = Seq::<JsonV>::empty();
        let ghost p1 = if c.arr {
            seq![JsonV::Str(spec_type_name(PrimitiveType::Array))]
        } else {
            ev
        };
        let ghost p2 = if c.boo {
            seq![JsonV::Str(spec_type_name(PrimitiveType::Boolean))]
        } else {
            ev
        };
        let ghost p3 = if c.int {
            seq![JsonV::Str(spec_type_name(PrimitiveType::Integer))]
        } else {
            ev
        };
        let ghost p4 = if c.nul {
            seq![JsonV::Str(spec_type_name(PrimitiveType::Null))]
        } else {
            ev
        };
        let ghost p5 = if c.num {
            seq![JsonV::Str(spec_type_name(PrimitiveType::Number))]
        } else {
            ev
        };
        let ghost p6 = if c.obj {
            seq![JsonV::Str(spec_type_name(PrimitiveType::Object))]
        } else {
            ev
        };
        let ghost p7 = if c.stri {
            seq![JsonV::Str(spec_type_name(PrimitiveType::String))]
        } else {
            ev
        };
        let mut names: Vec<Json> = Vec::new();
        if c.arr {
            names.push(Json::Str(PrimitiveType::Array.as_name()));
        }
        proof {
            assert(avs(names@) =~= p1);
        }
        if c.boo {
            names.push(Json::Str(PrimitiveType::Boolean.as_name()));
        }
        proof {
            assert(avs(names@) =~= p1 + p2);
        }
        if c.int {
            names.push(Json::Str(PrimitiveType::Integer.as_name()));
        }
        proof {
            assert(avs(names@) =~= p1 + p2 + p3);
        }
        if c.nul {
            names.push(Json::Str(PrimitiveType::Null.as_name()));
        }
        proof {
            assert(avs(names@) =~= p1 + p2 + p3 + p4);
        }
        if c.num {
            names.push(Json::Str(PrimitiveType::Number.as_name()));
        }
        proof {
            assert(avs(names@) =~= p1 + p2 + p3 + p4 + p5);
        }
        if c.obj {
            names.push(Json::Str(PrimitiveType::Object.as_name()));
        }
        proof {
            assert(avs(names@) =~= p1 + p2 + p3 + p4 + p5 + p6);
        }
        if c.stri {
            names.push(Json::Str(PrimitiveType::String.as_name()));
        }
        proof {
            assert(avs(names@) =~= p1 + p2 + p3 + p4 + p5 + p6 + p7);
            assert(avs(names@) == spec_name_list(c));
        }
        if names.len() == 1 {
            let n = names.pop().unwrap();
            proof {
                assert(jv(n) == spec_name_list(c)[0]);
            }
            return Some(n);
        }
        proof {
            lemma_jv_arr(names);
        }
        Some(Json::Arr(names))
    }
}

use crate::json::jv;

/// Parsing the name of a primitive type gives that type back.
proof fn lemma_parse_type_name(pt: PrimitiveType)
    ensures
        spec_type_of_name(spec_type_name(pt)) == Some(pt),
{
    reveal_strlit("array");
    reveal_strlit("boolean");
    reveal_strlit("integer");
    reveal_strlit("null");
    reveal_strlit("number");
    reveal_strlit("object");
    reveal_strlit("string");
    assert("array"@.len() == 5);
    assert("boolean"@.len() == 7);
    assert("integer"@.len() == 7);
    assert("null"@.len() == 4);
    assert("number"@.len() == 6);
    assert("object"@.len() == 6);
    assert("string"@.len() == 6);
    assert("boolean"@[0] != "integer"@[0]);
    assert("number"@[0] != "object"@[0]);
    assert("number"@[0] != "string"@[0]);
    assert("object"@[0] != "string"@[0]);
    match pt {
        PrimitiveType::Array => {
            assert(spec_type_of_name("array"@) == Some(PrimitiveType::Array));
        },
        PrimitiveType::Boolean => {
            assert(spec_type_of_name("boolean"@) == Some(PrimitiveType::Boolean));
        },
        PrimitiveType::Integer => {
            assert(spec_type_of_name("integer"@) == Some(PrimitiveType::Integer));
        },
        PrimitiveType::Null => {
            assert(spec_type_of_name("null"@) == Some(PrimitiveType::Null));
        },
        PrimitiveType::Number => {
            assert(spec_type_of_name("number"@) == Some(PrimitiveType::Number));
        },
        PrimitiveType::Object => {
            assert(spec_type_of_name("object"@) == Some(PrimitiveType::Object));
        },
        PrimitiveType::String => {
            assert(spec_type_of_name("string"@) == Some(PrimitiveType::String));
        },
    }
}

/// Appending a type name to a list of names adds that type to the parsed
/// set.
proof fn lemma_parse_name_snoc(xs: Seq<JsonV>, pt: PrimitiveType)
    ensures
        spec_types_of_name_list(xs.push(JsonV::Str(spec_type_name(pt))))
            == spec_types_of_name_list(xs).spec_add(pt),
{
    lemma_parse_type_name(pt);
    let ys = xs.push(JsonV::Str(spec_type_name(pt)));
    assert(ys.drop_last() =~= xs);
    assert(ys.last() == JsonV::Str(spec_type_name(pt)));
}

/// Parsing the canonical name list of a set recovers the set, with the
/// `Integer` flag restored from `Number`.
#[verifier::rlimit(100)]
#[verifier::spinoff_prover]
proof fn lemma_parse_name_list(c: PrimitiveTypesBitMap)
    ensures
        spec_types_of_name_list(spec_name_list(c)) == (PrimitiveTypesBitMap {
            int: c.int || c.num,
            ..c
        }),
{
    let e = Seq::<JsonV>::empty();
    let n0 = e;
    let n1 = if c.arr { n0.push(JsonV::Str(spec_type_name(PrimitiveType::Array))) } else { n0 };
    let n2 = if c.boo { n1.push(JsonV::Str(spec_type_name(PrimitiveType::Boolean))) } else { n1 };
    let n3 = if c.int { n2.push(JsonV::Str(spec_type_name(PrimitiveType::Integer))) } else { n2 };
    let n4 = if c.nul { n3.push(JsonV::Str(spec_type_name(PrimitiveType::Null))) } else { n3 };
    let n5 = if c.num { n4.push(JsonV::Str(spec_type_name(PrimitiveType::Number))) } else { n4 };
    let n6 = if c.obj { n5.push(JsonV::Str(spec_type_name(PrimitiveType::Object))) } else { n5 };
    let n7 = if c.stri { n6.push(JsonV::Str(spec_type_name(PrimitiveType::String))) } else { n6 };
    assert(spec_name_list(c) =~= n7);
    if c.arr {
        lemma_parse_name_snoc(n0, PrimitiveType::Array);
    }
    if c.boo {
        lemma_parse_name_snoc(n1, PrimitiveType::Boolean);
    }
    if c.int {
        lemma_parse_name_snoc(n2, PrimitiveType::Integer);
    }
    if c.nul {
        lemma_parse_name_snoc(n3, PrimitiveType::Null);
    }
    if c.num {
        lemma_parse_name_snoc(n4, PrimitiveType::Number);
    }
    if c.obj {
        lemma_parse_name_snoc(n5, PrimitiveType::Object);
    }
    if c.stri {
        lemma_parse_name_snoc(n6, PrimitiveType::String);
    }
}

/// The round trip through the canonical `type` value: a set that carries
/// `Integer` whenever it carries `Number`, and that is neither empty nor
/// full, is recovered exactly by parsing its canonical `type` value.  The
/// empty and the full set emit no value at all, and a set with `Number`
/// but not `Integer` first has `Integer` folded in, so they are left out.
pub proof fn lemma_type_value_round_trip(b: PrimitiveTypesBitMap)
    requires
        b.num ==> b.int,
        !b.spec_is_empty(),
        !b.spec_is_complete(),
    ensures
        spec_type_value_of_types(b) is Some,
        spec_types_of_type_value(Some(spec_type_value_of_types(b)->0)) == b,
{
    let c = if b.int && b.num {
        PrimitiveTypesBitMap { int: false, ..b }
    } else {
        b
    };
    let names = spec_name_list(c);
    lemma_parse_name_list(c);
    if names.len() == 1 {
        // Exactly one flag of `c` is raised; its name parses back to it.
        assert(names =~= names);
        if c.arr {
            lemma_parse_type_name(PrimitiveType::Array);
            assert(names[0] == JsonV::Str(spec_type_name(PrimitiveType::Array)));
        } else if c.boo {
            lemma_parse_type_name(PrimitiveType::Boolean);
            assert(names[0] == JsonV::Str(spec_type_name(PrimitiveType::Boolean)));
        } else if c.int {
            lemma_parse_type_name(PrimitiveType::Integer);
            assert(names[0] == JsonV::Str(spec_type_name(PrimitiveType::Integer)));
        } else if c.nul {
            lemma_parse_type_name(PrimitiveType::Null);
            assert(names[0] == JsonV::Str(spec_type_name(PrimitiveType::Null)));
        } else if c.num {
            lemma_parse_type_name(PrimitiveType::Number);
            assert(names[0] == JsonV::Str(spec_type_name(PrimitiveType::Number)));
        } else if c.obj {
            lemma_parse_type_name(PrimitiveType::Object);
            assert(names[0] == JsonV::Str(spec_type_name(PrimitiveType::Object)));
        } else {
            lemma_parse_type_name(PrimitiveType::String);
            assert(names[0] == JsonV::Str(spec_type_name(PrimitiveType::String)));
        }
    }
}

} // verus!
