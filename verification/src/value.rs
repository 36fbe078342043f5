//! Tagged runtime values and structural type descriptors.
//!
//! Every operand-stack slot and local-variable slot of the interpreter holds
//! one [`Value`]. Each instruction demands a specific variant; the typed
//! accessors below are the machine's only runtime type check. Floating-point
//! slots carry the raw IEEE-754 bit pattern: the machine moves such values
//! around verbatim and delegates their arithmetic to the embedder (see
//! [`crate::host`]).

use vstd::prelude::*;
use vstd::string::*;

use crate::error::VmError;

verus! {

/// A tagged runtime value held in one operand-stack or local-variable slot.
///
/// `Float` carries an IEEE-754 binary32 bit pattern and `Double` a binary64
/// bit pattern; all other numeric variants carry their value directly.
#[derive(Debug, Clone, Copy, PartialEq, Eq, Structural)]
pub enum Value {
    /// A static field cell that no `<clinit>` has written yet.
    Uninit,
    /// The null reference.
    Null,
    Boolean(bool),
    /// A 16-bit unsigned codepoint carried as signed 16 bits.
    Char(i16),
    Byte(i8),
    Short(i16),
    Int(i32),
    Long(i64),
    /// IEEE-754 binary32, carried as its raw bit pattern.
    Float(u32),
    /// IEEE-754 binary64, carried as its raw bit pattern.
    Double(u64),
    /// An opaque heap handle; object allocation is outside this core.
    Reference,
    ReturnAddress,
}

impl Value {
    /// True of single-slot values: everything except `Long` and `Double`.
    pub fn is_category1(&self) -> (r: bool)
        ensures
            r == self.spec_is_category1(),
    {
        match self {
            Value::Long(_) | Value::Double(_) => false,
            _ => true,
        }
    }

    /// True of double-width values: `Long` and `Double`.
    pub fn is_category2(&self) -> (r: bool)
        ensures
            r == !self.spec_is_category1(),
    {
        match self {
            Value::Long(_) | Value::Double(_) => true,
            _ => false,
        }
    }

    pub open spec fn spec_is_category1(self) -> bool {
        !(self is Long || self is Double)
    }

    /// A short lower-case name for the variant, used in diagnostics.
    pub fn as_str(&self) -> (r: &'static str)
    {
        match self {
            Value::Uninit => "uninit",
            Value::Null => "null",
            Value::Boolean(_) => "boolean",
            Value::Char(_) => "char",
            Value::Byte(_) => "byte",
            Value::Short(_) => "short",
            Value::Int(_) => "integer",
            Value::Long(_) => "long",
            Value::Float(_) => "float",
            Value::Double(_) => "double",
            Value::Reference => "reference",
            Value::ReturnAddress => "return address",
        }
    }

    pub fn as_bool(&self) -> (r: Option<bool>)
        ensures
            match r {
                Some(v) => *self == Value::Boolean(v),
                None => !(*self is Boolean),
            },
    {
        match self {
            Value::Boolean(v) => Some(*v),
            _ => None,
        }
    }

    pub fn as_char(&self) -> (r: Option<i16>)
        ensures
            match r {
                Some(v) => *self == Value::Char(v),
                None => !(*self is Char),
            },
    {
        match self {
            Value::Char(v) => Some(*v),
            _ => None,
        }
    }

    pub fn as_byte(&self) -> (r: Option<i8>)
        ensures
            match r {
                Some(v) => *self == Value::Byte(v),
                None => !(*self is Byte),
            },
    {
        match self {
            Value::Byte(v) => Some(*v),
            _ => None,
        }
    }

    pub fn as_short(&self) -> (r: Option<i16>)
        ensures
            match r {
                Some(v) => *self == Value::Short(v),
                None => !(*self is Short),
            },
    {
        match self {
            Value::Short(v) => Some(*v),
            _ => None,
        }
    }

    pub fn as_int(&self) -> (r: Option<i32>)
        ensures
            match r {
                Some(v) => *self == Value::Int(v),
                None => !(*self is Int),
            },
    {
        match self {
            Value::Int(v) => Some(*v),
            _ => None,
        }
    }

    pub fn as_long(&self) -> (r: Option<i64>)
        ensures
            match r {
                Some(v) => *self == Value::Long(v),
                None => !(*self is Long),
            },
    {
        match self {
            Value::Long(v) => Some(*v),
            _ => None,
        }
    }

    /// The raw binary32 bit pattern of a `Float` value.
    pub fn as_float(&self) -> (r: Option<u32>)
        ensures
            match r {
                Some(v) => *self == Value::Float(v),
                None => !(*self is Float),
            },
    {
        match self {
            Value::Float(v) => Some(*v),
            _ => None,
        }
    }

    /// The raw binary64 bit pattern of a `Double` value.
    pub fn as_double(&self) -> (r: Option<u64>)
        ensures
            match r {
                Some(v) => *self == Value::Double(v),
                None => !(*self is Double),
            },
    {
        match self {
            Value::Double(v) => Some(*v),
            _ => None,
        }
    }

    /// Whether this value's variant tag aligns with the descriptor kind of
    /// `ty`. This is the check `putstatic` performs before it stores into a
    /// field cell.
    pub fn matches_type(&self, ty: &Type) -> (r: bool)
        ensures
            r == self.spec_matches_type(*ty),
    {
        match (self, &ty.kind) {
            (Value::Boolean(_), TypeKind::Boolean) => true,
            (Value::Char(_), TypeKind::Char) => true,
            (Value::Byte(_), TypeKind::Byte) => true,
            (Value::Short(_), TypeKind::Short) => true,
            (Value::Int(_), TypeKind::Int) => true,
            (Value::Long(_), TypeKind::Long) => true,
            (Value::Float(_), TypeKind::Float) => true,
            (Value::Double(_), TypeKind::Double) => true,
            (Value::Reference, TypeKind::Reference) => true,
            _ => false,
        }
    }

    pub open spec fn spec_matches_type(self, ty: Type) -> bool {
        match ty.kind {
            TypeKind::Boolean => self is Boolean,
            TypeKind::Char => self is Char,
            TypeKind::Byte => self is Byte,
            TypeKind::Short => self is Short,
            TypeKind::Int => self is Int,
            TypeKind::Long => self is Long,
            TypeKind::Float => self is Float,
            TypeKind::Double => self is Double,
            TypeKind::Reference => self is Reference,
            TypeKind::Class(_) => false,
        }
    }
}

/// Mathematical model of a [`TypeKind`]: class names appear as character
/// sequences.
pub ghost enum TypeKindView {
    Boolean,
    Char,
    Byte,
    Short,
    Int,
    Long,
    Float,
    Double,
    Reference,
    Class(Seq<char>),
}

/// Mathematical model of a [`Type`].
pub ghost struct TypeView {
    pub array_dimensions: nat,
    pub kind: TypeKindView,
}

/// The base kind of a structural type descriptor.
#[derive(Debug, Clone, PartialEq, Eq)]
pub enum TypeKind {
    Boolean,
    Char,
    Byte,
    Short,
    Int,
    Long,
    Float,
    Double,
    /// An unnamed reference kind; never produced by descriptor parsing.
    Reference,
    /// A named class reference, written `L<name>;` in descriptors.
    Class(String),
}

impl View for TypeKind {
    type V = TypeKindView;

    open spec fn view(&self) -> TypeKindView {
        match self {
            TypeKind::Boolean => TypeKindView::Boolean,
            TypeKind::Char => TypeKindView::Char,
            TypeKind::Byte => TypeKindView::Byte,
            TypeKind::Short => TypeKindView::Short,
            TypeKind::Int => TypeKindView::Int,
            TypeKind::Long => TypeKindView::Long,
            TypeKind::Float => TypeKindView::Float,
            TypeKind::Double => TypeKindView::Double,
            TypeKind::Reference => TypeKindView::Reference,
            TypeKind::Class(name) => TypeKindView::Class(name@),
        }
    }
}

/// A structural type descriptor: a base kind under some number of array
/// dimensions. Produced by parsing the single-letter descriptor encoding.
#[derive(Debug, Clone, PartialEq, Eq)]
pub struct Type {
    pub array_dimensions: u8,
    pub kind: TypeKind,
}

impl View for Type {
    type V = TypeView;

    open spec fn view(&self) -> TypeView {
        TypeView { array_dimensions: self.array_dimensions as nat, kind: self.kind@ }
    }
}

/// A type that descriptor parsing can produce: no bare `Reference` kind, at
/// most 255 array dimensions, and no `;` inside a class name.
pub open spec fn valid_type_view(t: TypeView) -> bool {
    &&& !(t.kind is Reference)
    &&& t.array_dimensions <= 255
    &&& (t.kind matches TypeKindView::Class(name) ==> forall|k: int|
        0 <= k < name.len() ==> name[k] != ';')
}

/// `n` repetitions of the array prefix `[`.
pub open spec fn brackets(n: nat) -> Seq<char>
    decreases n,
{
    if n == 0 {
        Seq::<char>::empty()
    } else {
        seq!['['] + brackets((n - 1) as nat)
    }
}

/// The single-letter encoding of a base kind. A bare `Reference` kind has no
/// written form.
pub open spec fn kind_descriptor(k: TypeKindView) -> Seq<char> {
    match k {
        TypeKindView::Boolean => seq!['Z'],
        TypeKindView::Char => seq!['C'],
        TypeKindView::Byte => seq!['B'],
        TypeKindView::Short => seq!['S'],
        TypeKindView::Int => seq!['I'],
        TypeKindView::Long => seq!['J'],
        TypeKindView::Float => seq!['F'],
        TypeKindView::Double => seq!['D'],
        TypeKindView::Reference => Seq::<char>::empty(),
        TypeKindView::Class(name) => seq!['L'] + name + seq![';'],
    }
}

/// The descriptor string of a type: its array prefixes followed by its base
/// kind's encoding.
pub open spec fn type_descriptor(t: TypeView) -> Seq<char> {
    brackets(t.array_dimensions) + kind_descriptor(t.kind)
}

/// The position of the first `;` at or after `i`, if any.
pub open spec fn find_semicolon(s: Seq<char>, i: nat) -> Option<nat>
    decreases s.len() - i,
    when i <= s.len()
{
    if i >= s.len() {
        None
    } else if s[i as int] == ';' {
        Some(i)
    } else {
        find_semicolon(s, (i + 1) as nat)
    }
}

/// Parses one type descriptor starting at position `i`: consumes `[`
/// prefixes, then exactly one base-kind letter, where `L` collects a class
/// name up to the next `;`. Returns the type and the position just after its
/// descriptor.
pub open spec fn spec_parse_type(s: Seq<char>, i: nat) -> Option<(TypeView, nat)>
    decreases s.len() - i,
    when i <= s.len()
{
    if i >= s.len() {
        None
    } else {
        let c = s[i as int];
        if c == '[' {
            match spec_parse_type(s, (i + 1) as nat) {
                Some((t, e)) => if t.array_dimensions < 255 {
                    Some(
                        (
                            TypeView {
                                array_dimensions: (t.array_dimensions + 1) as nat,
                                kind: t.kind,
                            },
                            e,
                        ),
                    )
                } else {
                    None
                },
                None => None,
            }
        } else if c == 'Z' {
            Some((TypeView { array_dimensions: 0, kind: TypeKindView::Boolean }, (i + 1) as nat))
        } else if c == 'C' {
            Some((TypeView { array_dimensions: 0, kind: TypeKindView::Char }, (i + 1) as nat))
        } else if c == 'B' {
            Some((TypeView { array_dimensions: 0, kind: TypeKindView::Byte }, (i + 1) as nat))
        } else if c == 'S' {
            Some((TypeView { array_dimensions: 0, kind: TypeKindView::Short }, (i + 1) as nat))
        } else if c == 'I' {
            Some((TypeView { array_dimensions: 0, kind: TypeKindView::Int }, (i + 1) as nat))
        } else if c == 'J' {
            Some((TypeView { array_dimensions: 0, kind: TypeKindView::Long }, (i + 1) as nat))
        } else if c == 'F' {
            Some((TypeView { array_dimensions: 0, kind: TypeKindView::Float }, (i + 1) as nat))
        } else if c == 'D' {
            Some((TypeView { array_dimensions: 0, kind: TypeKindView::Double }, (i + 1) as nat))
        } else if c == 'L' {
            match find_semicolon(s, (i + 1) as nat) {
                Some(j) => Some(
                    (
                        TypeView {
                            array_dimensions: 0,
                            kind: TypeKindView::Class(s.subrange((i + 1) as int, j as int)),
                        },
                        (j + 1) as nat,
                    ),
                ),
                None => None,
            }
        } else {
            None
        }
    }
}

/// Where `find_semicolon` points, the character is `;`, and no earlier
/// position at or after `i` holds one.
pub proof fn lemma_find_semicolon(s: Seq<char>, i: nat)
    requires
        i <= s.len(),
    ensures
        match find_semicolon(s, i) {
            Some(j) => i <= j < s.len() && s[j as int] == ';' && forall|k: int|
                i <= k < j ==> s[k] != ';',
            None => forall|k: int| i <= k < s.len() ==> s[k] != ';',
        },
    decreases s.len() - i,
{
    if i < s.len() && s[i as int] != ';' {
        lemma_find_semicolon(s, (i + 1) as nat);
    }
}

/// A successful parse consumes at least one character, stays within the
/// string, and produces a valid type.
pub proof fn lemma_parse_type_progress(s: Seq<char>, i: nat)
    requires
        i <= s.len(),
    ensures
        spec_parse_type(s, i) matches Some((t, e)) ==> i < e <= s.len() && valid_type_view(t),
    decreases s.len() - i,
{
    if i < s.len() {
        if s[i as int] == '[' {
            lemma_parse_type_progress(s, (i + 1) as nat);
        } else if s[i as int] == 'L' {
            lemma_find_semicolon(s, (i + 1) as nat);
        }
    }
}

/// Parsing reads back exactly the descriptor that `type_descriptor` wrote,
/// wherever it is embedded: if the characters from `i` onward begin with the
/// descriptor of a valid type `t`, the parse at `i` yields `t` and stops
/// right after it.
pub proof fn lemma_parse_descriptor_at(s: Seq<char>, i: nat, t: TypeView)
    requires
        valid_type_view(t),
        i + type_descriptor(t).len() <= s.len(),
        s.subrange(i as int, (i + type_descriptor(t).len()) as int) == type_descriptor(t),
    ensures
        spec_parse_type(s, i) == Some((t, (i + type_descriptor(t).len()) as nat)),
    decreases t.array_dimensions,
{
    let td = type_descriptor(t);
    assert(forall|k: int| 0 <= k < td.len() ==> s[i + k] == td[k]) by {
        assert forall|k: int| 0 <= k < td.len() implies s[i + k] == td[k] by {
            assert(s.subrange(i as int, (i + td.len()) as int)[k] == s[i + k]);
        }
    }
    if t.array_dimensions == 0 {
        assert(brackets(0) =~= Seq::<char>::empty());
        assert(td =~= kind_descriptor(t.kind));
        match t.kind {
            TypeKindView::Class(name) => {
                assert(td =~= seq!['L'] + name + seq![';']);
                assert(s[i as int + 0] == td[0]);
                assert(s[i as int] == 'L');
                let j0 = (i + 1 + name.len()) as nat;
                assert(td[(1 + name.len()) as int] == ';');
                assert(s[i as int + (1 + name.len())] == td[(1 + name.len()) as int]);
                assert(s[j0 as int] == ';');
                assert forall|k: int| i + 1 <= k < j0 implies s[k] != ';' by {
                    let k2 = k - i;
                    assert(td[k2] == name[k2 - 1]);
                    assert(s[i as int + k2] == td[k2]);
                }
                lemma_find_semicolon(s, (i + 1) as nat);
                match find_semicolon(s, (i + 1) as nat) {
                    Some(j) => {
                        assert(j == j0);
                        assert(s.subrange((i + 1) as int, j0 as int) =~= name) by {
                            assert forall|k: int| 0 <= k < name.len() implies s.subrange(
                                (i + 1) as int,
                                j0 as int,
                            )[k] == name[k] by {
                                assert(td[1 + k] == name[k]);
                                assert(s[i as int + (1 + k)] == td[1 + k]);
                            }
                        }
                    },
                    None => {
                        assert(false);
                    },
                }
            },
            _ => {
                assert(s[i as int + 0] == td[0]);
                assert(spec_parse_type(s, i) == Some((t, (i + td.len()) as nat)));
            },
        }
    } else {
        let t1 = TypeView { array_dimensions: (t.array_dimensions - 1) as nat, kind: t.kind };
        assert(td =~= seq!['['] + type_descriptor(t1)) by {
            assert(brackets(t.array_dimensions) =~= seq!['['] + brackets(
                t1.array_dimensions,
            ));
        }
        assert(s[i as int + 0] == td[0]);
        assert(s[i as int] == '[');
        assert(s.subrange((i + 1) as int, (i + 1 + type_descriptor(t1).len()) as int)
            =~= type_descriptor(t1)) by {
            assert forall|k: int| 0 <= k < type_descriptor(t1).len() implies s.subrange(
                (i + 1) as int,
                (i + 1 + type_descriptor(t1).len()) as int,
            )[k] == type_descriptor(t1)[k] by {
                assert(td[1 + k] == type_descriptor(t1)[k]);
                assert(s[i as int + (1 + k)] == td[1 + k]);
            }
        }
        lemma_parse_descriptor_at(s, (i + 1) as nat, t1);
        assert(valid_type_view(t1));
    }
}

/// The round trip: serializing any valid type through `type_descriptor` and
/// parsing the result back yields the same type, with the whole descriptor
/// consumed.
pub proof fn lemma_type_descriptor_round_trip(t: TypeView)
    requires
        valid_type_view(t),
    ensures
        spec_parse_type(type_descriptor(t), 0) == Some(
            (t, type_descriptor(t).len() as nat),
        ),
{
    let td = type_descriptor(t);
    assert(td.subrange(0, td.len() as int) =~= td);
    lemma_parse_descriptor_at(td, 0, t);
}

impl Type {
    pub fn boolean() -> (r: Type)
        ensures
            r == (Type { array_dimensions: 0, kind: TypeKind::Boolean }),
    {
        Type { array_dimensions: 0, kind: TypeKind::Boolean }
    }

    pub fn char() -> (r: Type)
        ensures
            r == (Type { array_dimensions: 0, kind: TypeKind::Char }),
    {
        Type { array_dimensions: 0, kind: TypeKind::Char }
    }

    pub fn byte() -> (r: Type)
        ensures
            r == (Type { array_dimensions: 0, kind: TypeKind::Byte }),
    {
        Type { array_dimensions: 0, kind: TypeKind::Byte }
    }

    pub fn short() -> (r: Type)
        ensures
            r == (Type { array_dimensions: 0, kind: TypeKind::Short }),
    {
        Type { array_dimensions: 0, kind: TypeKind::Short }
    }

    pub fn integer() -> (r: Type)
        ensures
            r == (Type { array_dimensions: 0, kind: TypeKind::Int }),
    {
        Type { array_dimensions: 0, kind: TypeKind::Int }
    }

    pub fn long() -> (r: Type)
        ensures
            r == (Type { array_dimensions: 0, kind: TypeKind::Long }),
    {
        Type { array_dimensions: 0, kind: TypeKind::Long }
    }

    /// Parses one type descriptor beginning at character position `start`.
    /// On success returns the type and the position just past its
    /// descriptor; trailing characters are left for the caller.
    pub fn parse_prefix(s: &str, start: usize) -> (r: Result<(Type, usize), VmError>)
        requires
            start <= s@.len(),
        ensures
            match r {
                Ok(p) => {
                    &&& spec_parse_type(s@, start as nat) == Some((p.0@, p.1 as nat))
                    &&& start < p.1 <= s@.len()
                    &&& valid_type_view(p.0@)
                },
                Err(e) => spec_parse_type(s@, start as nat) is None && e is BadDescriptor,
            },
    {
        let ghost sv = s@;
        let n = s.unicode_len();
        let mut i = start;
        let mut dims: u8 = 0;
        loop
            invariant
                start <= i <= n,
                n == sv.len(),
                sv == s@,
                i - start == dims as int,
                (match spec_parse_type(sv, i as nat) {
                    Some(p) => if p.0.array_dimensions + dims as nat <= 255 {
                        spec_parse_type(sv, start as nat) == Some(
                            (
                                TypeView {
                                    array_dimensions: (p.0.array_dimensions + dims as nat) as nat,
                                    kind: p.0.kind,
                                },
                                p.1,
                            ),
                        )
                    } else {
                        spec_parse_type(sv, start as nat) is None
                    },
                    None => spec_parse_type(sv, start as nat) is None,
                }),
            ensures
                start <= i <= n,
                i - start == dims as int,
                (match spec_parse_type(sv, i as nat) {
                    Some(p) => if p.0.array_dimensions + dims as nat <= 255 {
                        spec_parse_type(sv, start as nat) == Some(
                            (
                                TypeView {
                                    array_dimensions: (p.0.array_dimensions + dims as nat) as nat,
                                    kind: p.0.kind,
                                },
                                p.1,
                            ),
                        )
                    } else {
                        spec_parse_type(sv, start as nat) is None
                    },
                    None => spec_parse_type(sv, start as nat) is None,
                }),
                i == n || sv[i as int] != '[',
            decreases n - i,
        {
            if i >= n {
                break;
            }
            let c = s.get_char(i);
            if c != '[' {
                break;
            }
            if dims == 255 {
                // A 256th array dimension: beyond what a descriptor can
                // carry, so nothing parses from `start`.
                proof {
                    lemma_parse_type_progress(sv, (i + 1) as nat);
                }
                return Err(VmError::BadDescriptor(s.to_owned()));
            }
            dims = dims + 1;
            i = i + 1;
        }
        if i >= n {
            return Err(VmError::BadDescriptor(s.to_owned()));
        }
        let c = s.get_char(i);
        let kind: TypeKind = if c == 'Z' {
            TypeKind::Boolean
        } else if c == 'C' {
            TypeKind::Char
        } else if c == 'B' {
            TypeKind::Byte
        } else if c == 'S' {
            TypeKind::Short
        } else if c == 'I' {
            TypeKind::Int
        } else if c == 'J' {
            TypeKind::Long
        } else if c == 'F' {
            TypeKind::Float
        } else if c == 'D' {
            TypeKind::Double
        } else if c == 'L' {
            let mut j = i + 1;
            loop
                invariant
                    i + 1 <= j <= n,
                    n == sv.len(),
                    sv == s@,
                    i < n,
                    forall|k: int| i + 1 <= k < j ==> sv[k] != ';',
                ensures
                    i + 1 <= j <= n,
                    forall|k: int| i + 1 <= k < j ==> sv[k] != ';',
                    j == n || sv[j as int] == ';',
                decreases n - j,
            {
                if j >= n {
                    break;
                }
                if s.get_char(j) == ';' {
                    break;
                }
                j = j + 1;
            }
            proof {
                lemma_find_semicolon(sv, (i + 1) as nat);
            }
            if j >= n {
                // No terminating `;`: not a descriptor.
                return Err(VmError::BadDescriptor(s.to_owned()));
            }
            proof {
                assert(find_semicolon(sv, (i + 1) as nat) == Some(j as nat));
            }
            let name_str = s.substring_char(i + 1, j);
            let name = name_str.to_owned();
            let t = Type { array_dimensions: dims, kind: TypeKind::Class(name) };
            proof {
                lemma_parse_type_progress(sv, i as nat);
                assert(t@.kind matches TypeKindView::Class(nm) && nm == sv.subrange(
                    i + 1,
                    j as int,
                ));
            }
            return Ok((t, j + 1));
        } else {
            return Err(VmError::BadDescriptor(s.to_owned()));
        };
        let t = Type { array_dimensions: dims, kind };
        proof {
            lemma_parse_type_progress(sv, i as nat);
        }
        Ok((t, i + 1))
    }

    /// Parses a whole field or parameter descriptor. Characters after the
    /// first complete descriptor are ignored.
    pub fn from_descriptor(s: &str) -> (r: Result<Type, VmError>)
        ensures
            match r {
                Ok(t) => spec_parse_type(s@, 0) matches Some(p) && p.0 == t@ && valid_type_view(
                    t@,
                ),
                Err(e) => spec_parse_type(s@, 0) is None && e is BadDescriptor,
            },
    {
        match Type::parse_prefix(s, 0) {
            Ok(p) => Ok(p.0),
            Err(e) => Err(e),
        }
    }

    /// Writes this type back in descriptor form; the inverse of descriptor
    /// parsing (see [`lemma_type_descriptor_round_trip`]).
    pub fn to_descriptor(&self) -> (r: String)
        requires
            valid_type_view(self@),
        ensures
            r@ == type_descriptor(self@),
    {
        let mut out = String::new();
        let mut k: u8 = 0;
        while k < self.array_dimensions
            invariant
                k <= self.array_dimensions,
                out@ == brackets(k as nat),
            decreases self.array_dimensions - k,
        {
            out.append("[");
            proof {
                reveal_strlit("[");
                lemma_brackets_snoc(k as nat);
                assert(out@ =~= brackets((k + 1) as nat));
            }
            k = k + 1;
        }
        match &self.kind {
            TypeKind::Boolean => {
                out.append("Z");
                proof {
                    reveal_strlit("Z");
                    assert(out@ =~= type_descriptor(self@));
                }
            },
            TypeKind::Char => {
                out.append("C");
                proof {
                    reveal_strlit("C");
                    assert(out@ =~= type_descriptor(self@));
                }
            },
            TypeKind::Byte => {
                out.append("B");
                proof {
                    reveal_strlit("B");
                    assert(out@ =~= type_descriptor(self@));
                }
            },
            TypeKind::Short => {
                out.append("S");
                proof {
                    reveal_strlit("S");
                    assert(out@ =~= type_descriptor(self@));
                }
            },
            TypeKind::Int => {
                out.append("I");
                proof {
                    reveal_strlit("I");
                    assert(out@ =~= type_descriptor(self@));
                }
            },
            TypeKind::Long => {
                out.append("J");
                proof {
                    reveal_strlit("J");
                    assert(out@ =~= type_descriptor(self@));
                }
            },
            TypeKind::Float => {
                out.append("F");
                proof {
                    reveal_strlit("F");
                    assert(out@ =~= type_descriptor(self@));
                }
            },
            TypeKind::Double => {
                out.append("D");
                proof {
                    reveal_strlit("D");
                    assert(out@ =~= type_descriptor(self@));
                }
            },
            TypeKind::Class(name) => {
                out.append("L");
                out.append(name.as_str());
                out.append(";");
                proof {
                    reveal_strlit("L");
                    reveal_strlit(";");
                    assert(out@ =~= type_descriptor(self@));
                }
            },
            TypeKind::Reference => {
                proof {
                    assert(false);
                }
            },
        }
        out
    }
}

/// Parses the parameter region of a method descriptor from position `i` up
/// to and including the closing `)`. Parameter descriptors are read
/// positionally, one type at a time; a `,` between two of them is tolerated
/// and skipped. Returns the parameter types and the position after `)`.
pub open spec fn spec_parse_params(s: Seq<char>, i: nat) -> Option<(Seq<TypeView>, nat)>
    decreases s.len() - i,
    when i <= s.len()
{
    if i >= s.len() {
        None
    } else if s[i as int] == ')' {
        Some((Seq::<TypeView>::empty(), (i + 1) as nat))
    } else if s[i as int] == ',' {
        spec_parse_params(s, (i + 1) as nat)
    } else {
        match spec_parse_type(s, i) {
            Some((t, e)) => if i < e <= s.len() {
                match spec_parse_params(s, e) {
                    Some((ts, e2)) => Some((seq![t] + ts, e2)),
                    None => None,
                }
            } else {
                None
            },
            None => None,
        }
    }
}

/// Parses a whole method descriptor `(params)return`, where `V` as the
/// return descriptor means no return type. Characters after the return
/// descriptor are ignored.
pub open spec fn spec_parse_signature(s: Seq<char>) -> Option<(Seq<TypeView>, Option<TypeView>)> {
    if s.len() == 0 || s[0] != '(' {
        None
    } else {
        match spec_parse_params(s, 1) {
            None => None,
            Some((ts, e)) => if e >= s.len() {
                None
            } else if s[e as int] == 'V' {
                Some((ts, None))
            } else {
                match spec_parse_type(s, e) {
                    Some((t, _e2)) => Some((ts, Some(t))),
                    None => None,
                }
            },
        }
    }
}

/// The views of a sequence of types.
pub open spec fn types_view(ts: Seq<Type>) -> Seq<TypeView> {
    ts.map_values(|t: Type| t@)
}

impl Type {
    /// Parses a method descriptor such as `(ILjava/lang/String;)V` into its
    /// parameter types and optional return type. Parameters are read
    /// positionally; commas between them are tolerated.
    pub fn parse_signature(s: &str) -> (r: Result<(Vec<Type>, Option<Type>), VmError>)
        ensures
            match r {
                Ok(p) => {
                    &&& spec_parse_signature(s@) == Some(
                        (
                            types_view(p.0@),
                            match p.1 {
                                Some(t) => Some(t@),
                                None => None::<TypeView>,
                            },
                        ),
                    )
                    &&& forall|k: int| 0 <= k < p.0@.len() ==> valid_type_view(#[trigger] p.0@[k]@)
                    &&& (p.1 matches Some(t) ==> valid_type_view(t@))
                },
                Err(e) => spec_parse_signature(s@) is None && e is BadDescriptor,
            },
    {
        let ghost sv = s@;
        let n = s.unicode_len();
        if n == 0 {
            return Err(VmError::BadDescriptor(s.to_owned()));
        }
        if s.get_char(0) != '(' {
            return Err(VmError::BadDescriptor(s.to_owned()));
        }
        let mut params: Vec<Type> = Vec::new();
        let mut i: usize = 1;
        loop
            invariant
                1 <= i <= n,
                n == sv.len(),
                sv == s@,
                forall|k: int| 0 <= k < params@.len() ==> valid_type_view(#[trigger] params@[k]@),
                (match spec_parse_params(sv, i as nat) {
                    Some(p) => spec_parse_params(sv, 1) == Some(
                        (types_view(params@) + p.0, p.1),
                    ),
                    None => spec_parse_params(sv, 1) is None,
                }),
            ensures
                1 <= i < n,
                sv[i as int] == ')',
                forall|k: int| 0 <= k < params@.len() ==> valid_type_view(#[trigger] params@[k]@),
                spec_parse_params(sv, 1) == Some((types_view(params@), (i + 1) as nat)),
            decreases n - i,
        {
            if i >= n {
                return Err(VmError::BadDescriptor(s.to_owned()));
            }
            let c = s.get_char(i);
            if c == ')' {
                break;
            }
            if c == ',' {
                i = i + 1;
                continue;
            }
            match Type::parse_prefix(s, i) {
                Err(e) => {
                    return Err(e);
                },
                Ok((t, end)) => {
                    proof {
                        let tv = t@;
                        let done0 = params@;
                        assert(types_view(done0.push(t)) =~= types_view(done0) + seq![tv]);
                        match spec_parse_params(sv, end as nat) {
                            Some(p2) => {
                                assert(spec_parse_params(sv, i as nat) == Some(
                                    (seq![tv] + p2.0, p2.1),
                                ));
                                assert(types_view(done0) + (seq![tv] + p2.0) =~= types_view(
                                    done0.push(t),
                                ) + p2.0);
                            },
                            None => {
                                assert(spec_parse_params(sv, i as nat) is None);
                            },
                        }
                    }
                    params.push(t);
                    i = end;
                },
            }
        }
        let rpos = i + 1;
        if rpos >= n {
            return Err(VmError::BadDescriptor(s.to_owned()));
        }
        let c = s.get_char(rpos);
        if c == 'V' {
            return Ok((params, None));
        }
        match Type::parse_prefix(s, rpos) {
            Err(e) => Err(e),
            Ok((t, _end)) => Ok((params, Some(t))),
        }
    }
}

/// Appending one more `[` on the right extends the bracket run by one.
pub proof fn lemma_brackets_snoc(n: nat)
    ensures
        brackets((n + 1) as nat) =~= brackets(n) + seq!['['],
    decreases n,
{
    if n > 0 {
        lemma_brackets_snoc((n - 1) as nat);
    }
}

} // verus!
