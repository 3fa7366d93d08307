use vstd::prelude::*;

use crate::symbols::TypeSymbolKind;

verus! {

/// Bit width of an integer type.
#[derive(Debug, Clone, Copy, PartialEq, Eq)]
pub enum IntSize {
    B8,
    B16,
    B32,
    B64,
    B128,
}

/// Signedness of an integer type.
#[derive(Debug, Clone, Copy, PartialEq, Eq)]
pub enum Sign {
    Unsigned,
    Signed,
}

/// Bit width of a floating point type.
#[derive(Debug, Clone, Copy, PartialEq, Eq)]
pub enum FloatSize {
    B32,
    B64,
}

/// A type of the Erwin language.
#[derive(Debug, PartialEq)]
pub enum Type<'a> {
    Bool,
    Integer { size: IntSize, sign: Sign },
    IntRange { size: IntSize, sign: Sign },
    Float { size: FloatSize },
    String,
    Pointer(Box<Type<'a>>),
    Ref(Box<Type<'a>>),
    Tuple(Vec<Type<'a>>),
    Array(Box<Type<'a>>),
    Function { params: Vec<Type<'a>>, return_ty: Box<Type<'a>> },
    Node(Box<Type<'a>>),
    Custom { module: Option<&'a str>, id: &'a str },
    /// The type of a module, named by its path.
    Module(&'a str),
    /// A type still to be inferred.
    Unknown,
    /// The type with a single value.
    Unit,
    /// The type of an expression that leaves the control flow.
    Done,
}

/// The mathematical model of a `Type`: the same tree, with sequences in place
/// of vectors.
pub enum SpecType<'a> {
    Bool,
    Integer { size: IntSize, sign: Sign },
    IntRange { size: IntSize, sign: Sign },
    Float { size: FloatSize },
    String,
    Pointer(Box<SpecType<'a>>),
    Ref(Box<SpecType<'a>>),
    Tuple(Seq<SpecType<'a>>),
    Array(Box<SpecType<'a>>),
    Function { params: Seq<SpecType<'a>>, return_ty: Box<SpecType<'a>> },
    Node(Box<SpecType<'a>>),
    Custom { module: Option<&'a str>, id: &'a str },
    Module(&'a str),
    Unknown,
    Unit,
    Done,
}

pub open spec fn view_types<'a>(s: Seq<Type<'a>>) -> Seq<SpecType<'a>>
    decreases s,
{
    if s.len() == 0 {
        Seq::empty()
    } else {
        seq![view_type(s[0])] + view_types(s.subrange(1, s.len() as int))
    }
}

pub open spec fn view_type<'a>(t: Type<'a>) -> SpecType<'a>
    decreases t,
{
    match t {
        Type::Bool => SpecType::Bool,
        Type::Integer { size, sign } => SpecType::Integer { size, sign },
        Type::IntRange { size, sign } => SpecType::IntRange { size, sign },
        Type::Float { size } => SpecType::Float { size },
        Type::String => SpecType::String,
        Type::Pointer(b) => SpecType::Pointer(Box::new(view_type(*b))),
        Type::Ref(b) => SpecType::Ref(Box::new(view_type(*b))),
        Type::Tuple(v) => SpecType::Tuple(view_types(v@)),
        Type::Array(b) => SpecType::Array(Box::new(view_type(*b))),
        Type::Function { params, return_ty } => SpecType::Function {
            params: view_types(params@),
            return_ty: Box::new(view_type(*return_ty)),
        },
        Type::Node(b) => SpecType::Node(Box::new(view_type(*b))),
        Type::Custom { module, id } => SpecType::Custom { module, id },
        Type::Module(p) => SpecType::Module(p),
        Type::Unknown => SpecType::Unknown,
        Type::Unit => SpecType::Unit,
        Type::Done => SpecType::Done,
    }
}

impl<'a> View for Type<'a> {
    type V = SpecType<'a>;

    open spec fn view(&self) -> SpecType<'a> {
        view_type(*self)
    }
}


/// The element-wise model of a sequence of types.
pub proof fn lemma_view_types<'a>(s: Seq<Type<'a>>)
    ensures
        view_types(s).len() == s.len(),
        forall|i: int| 0 <= i < s.len() ==> #[trigger] view_types(s)[i] == view_type(s[i]),
    decreases s.len(),
{
    if s.len() > 0 {
        lemma_view_types(s.subrange(1, s.len() as int));
        assert forall|i: int| 0 <= i < s.len() implies #[trigger] view_types(s)[i] == view_type(s[i]) by {
            if i > 0 {
                assert(s.subrange(1, s.len() as int)[i - 1] == s[i]);
            }
        }
    }
}

/// The kind of type symbol under which the members of a type are found.
pub open spec fn symbol_kind_of<'a>(t: SpecType<'a>) -> Option<TypeSymbolKind<'a>> {
    match t {
        SpecType::Bool => Some(TypeSymbolKind::Bool),
        SpecType::Integer { size, sign } => Some(
            match (size, sign) {
                (IntSize::B8, Sign::Unsigned) => TypeSymbolKind::UInt8,
                (IntSize::B16, Sign::Unsigned) => TypeSymbolKind::UInt16,
                (IntSize::B32, Sign::Unsigned) => TypeSymbolKind::UInt32,
                (IntSize::B64, Sign::Unsigned) => TypeSymbolKind::UInt64,
                (IntSize::B128, Sign::Unsigned) => TypeSymbolKind::UInt128,
                (IntSize::B8, Sign::Signed) => TypeSymbolKind::Int8,
                (IntSize::B16, Sign::Signed) => TypeSymbolKind::Int16,
                (IntSize::B32, Sign::Signed) => TypeSymbolKind::Int32,
                (IntSize::B64, Sign::Signed) => TypeSymbolKind::Int64,
                (IntSize::B128, Sign::Signed) => TypeSymbolKind::Int128,
            },
        ),
        SpecType::IntRange { size, sign } => Some(
            match (size, sign) {
                (IntSize::B8, Sign::Unsigned) => TypeSymbolKind::URange8,
                (IntSize::B16, Sign::Unsigned) => TypeSymbolKind::URange16,
                (IntSize::B32, Sign::Unsigned) => TypeSymbolKind::URange32,
                (IntSize::B64, Sign::Unsigned) => TypeSymbolKind::URange64,
                (IntSize::B128, Sign::Unsigned) => TypeSymbolKind::URange128,
                (IntSize::B8, Sign::Signed) => TypeSymbolKind::Range8,
                (IntSize::B16, Sign::Signed) => TypeSymbolKind::Range16,
                (IntSize::B32, Sign::Signed) => TypeSymbolKind::Range32,
                (IntSize::B64, Sign::Signed) => TypeSymbolKind::Range64,
                (IntSize::B128, Sign::Signed) => TypeSymbolKind::Range128,
            },
        ),
        SpecType::Float { size: FloatSize::B32 } => Some(TypeSymbolKind::Float32),
        SpecType::Float { size: FloatSize::B64 } => Some(TypeSymbolKind::Float64),
        SpecType::String => Some(TypeSymbolKind::Str),
        SpecType::Pointer(_) => Some(TypeSymbolKind::Ptr),
        SpecType::Tuple(_) => Some(TypeSymbolKind::Tuple),
        SpecType::Array(_) => Some(TypeSymbolKind::Array),
        SpecType::Function { .. } => Some(TypeSymbolKind::Func),
        SpecType::Node(_) => Some(TypeSymbolKind::Node),
        SpecType::Custom { module: _, id } => Some(TypeSymbolKind::Custom(id)),
        _ => None,
    }
}

/// The type of the elements that iterating over a value of type `t` yields:
/// integers for a range, the element type for an array, bytes for a string;
/// through a reference or a pointer, a reference to that element type.
pub open spec fn elem_of<'a>(t: SpecType<'a>) -> Option<SpecType<'a>>
    decreases t,
{
    match t {
        SpecType::IntRange { size, sign } => Some(SpecType::Integer { size, sign }),
        SpecType::Array(e) => Some(*e),
        SpecType::String => Some(SpecType::Integer { size: IntSize::B8, sign: Sign::Unsigned }),
        SpecType::Ref(inner) => match elem_of(*inner) {
            Some(e) => Some(SpecType::Ref(Box::new(e))),
            None => None,
        },
        SpecType::Pointer(inner) => match elem_of(*inner) {
            Some(e) => Some(SpecType::Ref(Box::new(e))),
            None => None,
        },
        _ => None,
    }
}

impl<'a> Type<'a> {
    /// A copy of this type.
    pub fn duplicate(&self) -> (r: Type<'a>)
        ensures
            r@ == self@,
        decreases self,
    {
        match self {
            Type::Bool => Type::Bool,
            Type::Integer { size, sign } => Type::Integer { size: *size, sign: *sign },
            Type::IntRange { size, sign } => Type::IntRange { size: *size, sign: *sign },
            Type::Float { size } => Type::Float { size: *size },
            Type::String => Type::String,
            Type::Pointer(b) => Type::Pointer(Box::new(b.duplicate())),
            Type::Ref(b) => Type::Ref(Box::new(b.duplicate())),
            Type::Tuple(v) => Type::Tuple(Self::duplicate_all(v)),
            Type::Array(b) => Type::Array(Box::new(b.duplicate())),
            Type::Function { params, return_ty } => Type::Function {
                params: Self::duplicate_all(params),
                return_ty: Box::new(return_ty.duplicate()),
            },
            Type::Node(b) => Type::Node(Box::new(b.duplicate())),
            Type::Custom { module, id } => Type::Custom { module: *module, id: *id },
            Type::Module(p) => Type::Module(*p),
            Type::Unknown => Type::Unknown,
            Type::Unit => Type::Unit,
            Type::Done => Type::Done,
        }
    }

    /// Copies of the types in `v`.
    pub fn duplicate_all(v: &Vec<Type<'a>>) -> (r: Vec<Type<'a>>)
        ensures
            view_types(r@) == view_types(v@),
        decreases v,
    {
        let mut out: Vec<Type<'a>> = Vec::new();
        let mut i: usize = 0;
        while i < v.len()
            invariant
                i <= v.len(),
                out@.len() == i,
                forall|j: int| 0 <= j < i ==> view_type(#[trigger] out@[j]) == view_type(v@[j]),
            decreases v.len() - i,
        {
            proof {
                assert(decreases_to!(v => v@[i as int]));
            }
            let d = v[i].duplicate();
            out.push(d);
            i = i + 1;
        }
        proof {
            lemma_view_types(out@);
            lemma_view_types(v@);
            assert(view_types(out@) =~= view_types(v@));
        }
        out
    }

    /// The kind of type symbol that holds the members of this type, if it has
    /// one.
    pub fn type_symbol_id(&self) -> (r: Option<TypeSymbolKind<'a>>)
        ensures
            r == symbol_kind_of(self@),
    {
        match self {
            Type::Bool => Some(TypeSymbolKind::Bool),
            Type::Integer { size, sign } => Some(
                match (size, sign) {
                    (IntSize::B8, Sign::Unsigned) => TypeSymbolKind::UInt8,
                    (IntSize::B16, Sign::Unsigned) => TypeSymbolKind::UInt16,
                    (IntSize::B32, Sign::Unsigned) => TypeSymbolKind::UInt32,
                    (IntSize::B64, Sign::Unsigned) => TypeSymbolKind::UInt64,
                    (IntSize::B128, Sign::Unsigned) => TypeSymbolKind::UInt128,
                    (IntSize::B8, Sign::Signed) => TypeSymbolKind::Int8,
                    (IntSize::B16, Sign::Signed) => TypeSymbolKind::Int16,
                    (IntSize::B32, Sign::Signed) => TypeSymbolKind::Int32,
                    (IntSize::B64, Sign::Signed) => TypeSymbolKind::Int64,
                    (IntSize::B128, Sign::Signed) => TypeSymbolKind::Int128,
                },
            ),
            Type::IntRange { size, sign } => Some(
                match (size, sign) {
                    (IntSize::B8, Sign::Unsigned) => TypeSymbolKind::URange8,
                    (IntSize::B16, Sign::Unsigned) => TypeSymbolKind::URange16,
                    (IntSize::B32, Sign::Unsigned) => TypeSymbolKind::URange32,
                    (IntSize::B64, Sign::Unsigned) => TypeSymbolKind::URange64,
                    (IntSize::B128, Sign::Unsigned) => TypeSymbolKind::URange128,
                    (IntSize::B8, Sign::Signed) => TypeSymbolKind::Range8,
                    (IntSize::B16, Sign::Signed) => TypeSymbolKind::Range16,
                    (IntSize::B32, Sign::Signed) => TypeSymbolKind::Range32,
                    (IntSize::B64, Sign::Signed) => TypeSymbolKind::Range64,
                    (IntSize::B128, Sign::Signed) => TypeSymbolKind::Range128,
                },
            ),
            Type::Float { size: FloatSize::B32 } => Some(TypeSymbolKind::Float32),
            Type::Float { size: FloatSize::B64 } => Some(TypeSymbolKind::Float64),
            Type::String => Some(TypeSymbolKind::Str),
            Type::Pointer(_) => Some(TypeSymbolKind::Ptr),
            Type::Tuple(_) => Some(TypeSymbolKind::Tuple),
            Type::Array(_) => Some(TypeSymbolKind::Array),
            Type::Function { .. } => Some(TypeSymbolKind::Func),
            Type::Node(_) => Some(TypeSymbolKind::Node),
            Type::Custom { module: _, id } => Some(TypeSymbolKind::Custom(*id)),
            _ => None,
        }
    }

    /// The type of the elements that iterating over a value of this type
    /// yields, if it can be iterated over.
    pub fn elem_type(&self) -> (r: Option<Type<'a>>)
        ensures
            match r {
                Some(e) => elem_of(self@) == Some(e@),
                None => elem_of(self@) is None,
            },
        decreases self,
    {
        match self {
            Type::IntRange { size, sign } => Some(Type::Integer { size: *size, sign: *sign }),
            Type::Array(ty) => Some(ty.duplicate()),
            Type::String => Some(Type::Integer { size: IntSize::B8, sign: Sign::Unsigned }),
            Type::Ref(ty) | Type::Pointer(ty) => match ty.elem_type() {
                Some(elem_ty) => Some(Type::Ref(Box::new(elem_ty))),
                None => None,
            },
            _ => None,
        }
    }
}

} // verus!

verus! {

/// The model of a sequence with one more type at its end.
pub proof fn lemma_view_types_push<'a>(s: Seq<Type<'a>>, x: Type<'a>)
    ensures
        view_types(s.push(x)) == view_types(s).push(view_type(x)),
{
    lemma_view_types(s.push(x));
    lemma_view_types(s);
    assert(view_types(s.push(x)) =~= view_types(s).push(view_type(x)));
}

/// Types of different kinds, or integers, ranges or floats of different
/// sizes or signs, have different type symbols.
pub proof fn lemma_symbol_kinds_distinct<'a>(t1: SpecType<'a>, t2: SpecType<'a>)
    requires
        !(t1 is Custom),
        !(t2 is Custom),
        symbol_kind_of(t1) is Some,
        symbol_kind_of(t1) == symbol_kind_of(t2),
    ensures
        t1 is Bool <==> t2 is Bool,
        t1 is Integer <==> t2 is Integer,
        t1 is IntRange <==> t2 is IntRange,
        t1 is Float <==> t2 is Float,
        t1 is String <==> t2 is String,
        t1 is Pointer <==> t2 is Pointer,
        t1 is Tuple <==> t2 is Tuple,
        t1 is Array <==> t2 is Array,
        t1 is Function <==> t2 is Function,
        t1 is Node <==> t2 is Node,
        (t1 is Integer || t1 is IntRange || t1 is Float || t1 is Bool || t1 is String) ==> t1 == t2,
{
}

} // verus!
