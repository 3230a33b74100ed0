//! Semantic classification of property literal text.

use vstd::prelude::*;

use crate::text::chars_to_string;
use crate::text::contains_char;
use crate::text::count_char;
use crate::text::count_char_range;
use crate::text::eq_range;
use crate::text::find_char_range;
use crate::text::is_f64_text_range;
use crate::text::is_i64_text_range;
use crate::text::spec_is_f64_text;
use crate::text::spec_is_i64_text;
use crate::text::range_to_string;
use crate::text::spec_trim;
use crate::text::str_to_chars;
use crate::text::trim_range;

verus! {

/// The closed set of semantic types a property literal can take.
#[derive(Debug, Clone, Copy, PartialEq, Eq, Structural)]
pub enum PropertyType {
    String,
    Int,
    Float,
    Bool,
    Vec2,
    Vec3,
    Color,
    SceneRef,
}

/// The target-language type used when a property of this type is emitted
/// as an immutable constant.
pub open spec fn spec_to_rust_type(t: PropertyType) -> Seq<char> {
    match t {
        PropertyType::String => "&'static str"@,
        PropertyType::Int => "i32"@,
        PropertyType::Float => "f32"@,
        PropertyType::Bool => "bool"@,
        PropertyType::Vec2 => "(i32, i32)"@,
        PropertyType::Vec3 => "(i32, i32, i32)"@,
        PropertyType::Color => "(u8, u8, u8, u8)"@,
        PropertyType::SceneRef => "&'static str"@,
    }
}

/// The target-language type used when a property of this type is held
/// in a mutable runtime slot.
pub open spec fn spec_to_rust_type_mut(t: PropertyType) -> Seq<char> {
    match t {
        PropertyType::String => "String"@,
        PropertyType::SceneRef => "String"@,
        _ => spec_to_rust_type(t),
    }
}

/// The classification of a property literal's trimmed text, in decision
/// order: scene reference, parenthesized tuple by arity, quoted string,
/// boolean word, floating-point text containing a dot, integer text, and
/// otherwise a plain string.
pub open spec fn spec_infer(value: Seq<char>) -> PropertyType {
    let t = spec_trim(value);
    if t.len() > 0 && t[0] == '#' {
        PropertyType::SceneRef
    } else if t.len() > 0 && t[0] == '(' && t.last() == ')' {
        let parts = count_char(t.subrange(1, t.len() - 1), ',') + 1;
        if parts == 2 {
            PropertyType::Vec2
        } else if parts == 3 {
            PropertyType::Vec3
        } else if parts == 4 {
            PropertyType::Color
        } else {
            PropertyType::String
        }
    } else if t.len() > 0 && t[0] == '"' && t.last() == '"' {
        PropertyType::String
    } else if t == "true"@ || t == "false"@ {
        PropertyType::Bool
    } else if contains_char(t, '.') && spec_is_f64_text(t) {
        PropertyType::Float
    } else if spec_is_i64_text(t) {
        PropertyType::Int
    } else {
        PropertyType::String
    }
}

impl PropertyType {
    /// Classify a property literal by its textual form alone. Total: every
    /// string is assigned exactly one type.
    pub fn infer(value: &str) -> (r: PropertyType)
        ensures
            r == spec_infer(value@),
    {
        let v = str_to_chars(value);
        let (lo, hi) = trim_range(&v, 0, v.len());
        proof {
            assert(v@.subrange(0, v@.len() as int) =~= v@);
        }
        let ghost t = spec_trim(value@);
        if lo < hi && v[lo] == '#' {
            proof {
                assert(t[0] == v@[lo as int]);
            }
            return PropertyType::SceneRef;
        }
        proof {
            if lo < hi {
                assert(t[0] == v@[lo as int]);
                assert(t.last() == v@[hi - 1]);
            }
        }
        if lo < hi && v[lo] == '(' && v[hi - 1] == ')' {
            proof {
                assert(t.subrange(1, t.len() - 1) =~= v@.subrange(lo + 1, hi - 1));
            }
            let commas = count_char_range(&v, lo + 1, hi - 1, ',');
            return if commas == 1 {
                PropertyType::Vec2
            } else if commas == 2 {
                PropertyType::Vec3
            } else if commas == 3 {
                PropertyType::Color
            } else {
                PropertyType::String
            };
        }
        if lo < hi && v[lo] == '"' && v[hi - 1] == '"' {
            return PropertyType::String;
        }
        if eq_range(&v, lo, hi, "true") || eq_range(&v, lo, hi, "false") {
            return PropertyType::Bool;
        }
        let dot = find_char_range(&v, lo, hi, '.');
        let has_dot = dot.is_some();
        proof {
            match dot {
                Some(j) => {
                    assert(t[j - lo] == v@[j as int]);
                    assert(contains_char(t, '.'));
                },
                None => {
                    assert forall|i: int| 0 <= i < t.len() implies t[i] != '.' by {
                        assert(t[i] == v@[lo + i]);
                    }
                },
            }
        }
        if has_dot && is_f64_text_range(&v, lo, hi) {
            return PropertyType::Float;
        }
        if is_i64_text_range(&v, lo, hi) {
            return PropertyType::Int;
        }
        PropertyType::String
    }

    /// Target type text for a static constant of this property type.
    pub fn to_rust_type(&self) -> (r: &'static str)
        ensures
            r@ == spec_to_rust_type(*self),
    {
        match self {
            PropertyType::String => "&'static str",
            PropertyType::Int => "i32",
            PropertyType::Float => "f32",
            PropertyType::Bool => "bool",
            PropertyType::Vec2 => "(i32, i32)",
            PropertyType::Vec3 => "(i32, i32, i32)",
            PropertyType::Color => "(u8, u8, u8, u8)",
            PropertyType::SceneRef => "&'static str",
        }
    }

    /// Target type text for a mutable runtime slot of this property type.
    pub fn to_rust_type_mut(&self) -> (r: &'static str)
        ensures
            r@ == spec_to_rust_type_mut(*self),
    {
        match self {
            PropertyType::String => "String",
            PropertyType::SceneRef => "String",
            _ => self.to_rust_type(),
        }
    }

    /// Render a literal as a target-language constant of this type: quoted
    /// text is kept, unquoted string-like text gains quotes, and everything
    /// else is emitted as its trimmed text.
    pub fn parse_to_rust_const(&self, value: &str) -> (r: String)
        ensures
            r@ == spec_to_rust_const(*self, value@),
    {
        let v = str_to_chars(value);
        let (lo, hi) = trim_range(&v, 0, v.len());
        proof {
            assert(v@.subrange(0, v@.len() as int) =~= v@);
        }
        let ghost t = spec_trim(value@);
        proof {
            if lo < hi {
                assert(t[0] == v@[lo as int]);
                assert(t.last() == v@[hi - 1]);
            }
        }
        let quoted: bool = match self {
            PropertyType::String => !(lo < hi && v[lo] == '"' && v[hi - 1] == '"'),
            PropertyType::SceneRef => !(lo < hi && v[lo] == '"'),
            _ => false,
        };
        if quoted {
            let mut out: Vec<char> = Vec::new();
            out.push('"');
            let mut i: usize = lo;
            while i < hi
                invariant
                    lo <= i <= hi <= v@.len(),
                    out@ == seq!['"'] + v@.subrange(lo as int, i as int),
                decreases hi - i,
            {
                out.push(v[i]);
                proof {
                    assert((seq!['"'] + v@.subrange(lo as int, i as int)).push(v@[i as int])
                        =~= seq!['"'] + v@.subrange(lo as int, i + 1 as int));
                }
                i += 1;
            }
            out.push('"');
            let r = chars_to_string(&out);
            proof {
                assert(out@ =~= seq!['"'] + t + seq!['"']);
            }
            r
        } else {
            range_to_string(&v, lo, hi)
        }
    }
}

/// The target-language constant text for a literal of the given type.
pub open spec fn spec_to_rust_const(t: PropertyType, value: Seq<char>) -> Seq<char> {
    let tr = spec_trim(value);
    match t {
        PropertyType::String => if tr.len() > 0 && tr[0] == '"' && tr.last() == '"' {
            tr
        } else {
            seq!['"'] + tr + seq!['"']
        },
        PropertyType::SceneRef => if tr.len() > 0 && tr[0] == '"' {
            tr
        } else {
            seq!['"'] + tr + seq!['"']
        },
        _ => tr,
    }
}

} // verus!
