use vstd::prelude::*;

use crate::text::str_equals;

verus! {

/// The kind of a type symbol: a builtin type, or a custom type by name.
#[derive(Debug, Clone, Copy, PartialEq, Eq, Hash)]
pub enum TypeSymbolKind<'a> {
    Bool,
    UInt8,
    UInt16,
    UInt32,
    UInt64,
    UInt128,
    Int8,
    Int16,
    Int32,
    Int64,
    Int128,
    URange8,
    URange16,
    URange32,
    URange64,
    URange128,
    Range8,
    Range16,
    Range32,
    Range64,
    Range128,
    Float32,
    Float64,
    Str,
    Ptr,
    Ref,
    Tuple,
    Array,
    Func,
    Node,
    Custom(&'a str),
}

/// The name under which a type symbol kind is written in source.
pub open spec fn kind_name<'a>(k: TypeSymbolKind<'a>) -> Seq<char> {
    match k {
        TypeSymbolKind::Bool => "Bool"@,
        TypeSymbolKind::UInt8 => "UInt8"@,
        TypeSymbolKind::UInt16 => "UInt16"@,
        TypeSymbolKind::UInt32 => "UInt32"@,
        TypeSymbolKind::UInt64 => "UInt64"@,
        TypeSymbolKind::UInt128 => "UInt128"@,
        TypeSymbolKind::Int8 => "Int8"@,
        TypeSymbolKind::Int16 => "Int16"@,
        TypeSymbolKind::Int32 => "Int32"@,
        TypeSymbolKind::Int64 => "Int64"@,
        TypeSymbolKind::Int128 => "Int128"@,
        TypeSymbolKind::URange8 => "URange8"@,
        TypeSymbolKind::URange16 => "URange16"@,
        TypeSymbolKind::URange32 => "URange32"@,
        TypeSymbolKind::URange64 => "URange64"@,
        TypeSymbolKind::URange128 => "URange128"@,
        TypeSymbolKind::Range8 => "Range8"@,
        TypeSymbolKind::Range16 => "Range16"@,
        TypeSymbolKind::Range32 => "Range32"@,
        TypeSymbolKind::Range64 => "Range64"@,
        TypeSymbolKind::Range128 => "Range128"@,
        TypeSymbolKind::Float32 => "Float32"@,
        TypeSymbolKind::Float64 => "Float64"@,
        TypeSymbolKind::Str => "Str"@,
        TypeSymbolKind::Ptr => "Ptr"@,
        TypeSymbolKind::Ref => "Ref"@,
        TypeSymbolKind::Tuple => "Tuple"@,
        TypeSymbolKind::Array => "Array"@,
        TypeSymbolKind::Func => "Func"@,
        TypeSymbolKind::Node => "Node"@,
        TypeSymbolKind::Custom(id) => id@,
    }
}

/// The string that names a type symbol kind: a builtin name, or the
/// identifier of a custom kind.
pub open spec fn kind_str<'a>(k: TypeSymbolKind<'a>) -> &'a str {
    match k {
        TypeSymbolKind::Bool => "Bool",
        TypeSymbolKind::UInt8 => "UInt8",
        TypeSymbolKind::UInt16 => "UInt16",
        TypeSymbolKind::UInt32 => "UInt32",
        TypeSymbolKind::UInt64 => "UInt64",
        TypeSymbolKind::UInt128 => "UInt128",
        TypeSymbolKind::Int8 => "Int8",
        TypeSymbolKind::Int16 => "Int16",
        TypeSymbolKind::Int32 => "Int32",
        TypeSymbolKind::Int64 => "Int64",
        TypeSymbolKind::Int128 => "Int128",
        TypeSymbolKind::URange8 => "URange8",
        TypeSymbolKind::URange16 => "URange16",
        TypeSymbolKind::URange32 => "URange32",
        TypeSymbolKind::URange64 => "URange64",
        TypeSymbolKind::URange128 => "URange128",
        TypeSymbolKind::Range8 => "Range8",
        TypeSymbolKind::Range16 => "Range16",
        TypeSymbolKind::Range32 => "Range32",
        TypeSymbolKind::Range64 => "Range64",
        TypeSymbolKind::Range128 => "Range128",
        TypeSymbolKind::Float32 => "Float32",
        TypeSymbolKind::Float64 => "Float64",
        TypeSymbolKind::Str => "Str",
        TypeSymbolKind::Ptr => "Ptr",
        TypeSymbolKind::Ref => "Ref",
        TypeSymbolKind::Tuple => "Tuple",
        TypeSymbolKind::Array => "Array",
        TypeSymbolKind::Func => "Func",
        TypeSymbolKind::Node => "Node",
        TypeSymbolKind::Custom(id) => id,
    }
}

/// Whether `s` is the name of a builtin type symbol kind.
pub open spec fn is_builtin_name(s: Seq<char>) -> bool {
    s == "Bool"@
    || s == "UInt8"@
    || s == "UInt16"@
    || s == "UInt32"@
    || s == "UInt64"@
    || s == "UInt128"@
    || s == "Int8"@
    || s == "Int16"@
    || s == "Int32"@
    || s == "Int64"@
    || s == "Int128"@
    || s == "URange8"@
    || s == "URange16"@
    || s == "URange32"@
    || s == "URange64"@
    || s == "URange128"@
    || s == "Range8"@
    || s == "Range16"@
    || s == "Range32"@
    || s == "Range64"@
    || s == "Range128"@
    || s == "Float32"@
    || s == "Float64"@
    || s == "Str"@
    || s == "Ptr"@
    || s == "Ref"@
    || s == "Tuple"@
    || s == "Array"@
    || s == "Func"@
    || s == "Node"@
}

/// The type symbol kind that the name `s` stands for.
pub open spec fn kind_of_name<'a>(s: &'a str) -> TypeSymbolKind<'a> {
    if s@ == "Bool"@ {
        TypeSymbolKind::Bool
    } else if s@ == "UInt8"@ {
        TypeSymbolKind::UInt8
    } else if s@ == "UInt16"@ {
        TypeSymbolKind::UInt16
    } else if s@ == "UInt32"@ {
        TypeSymbolKind::UInt32
    } else if s@ == "UInt64"@ {
        TypeSymbolKind::UInt64
    } else if s@ == "UInt128"@ {
        TypeSymbolKind::UInt128
    } else if s@ == "Int8"@ {
        TypeSymbolKind::Int8
    } else if s@ == "Int16"@ {
        TypeSymbolKind::Int16
    } else if s@ == "Int32"@ {
        TypeSymbolKind::Int32
    } else if s@ == "Int64"@ {
        TypeSymbolKind::Int64
    } else if s@ == "Int128"@ {
        TypeSymbolKind::Int128
    } else if s@ == "URange8"@ {
        TypeSymbolKind::URange8
    } else if s@ == "URange16"@ {
        TypeSymbolKind::URange16
    } else if s@ == "URange32"@ {
        TypeSymbolKind::URange32
    } else if s@ == "URange64"@ {
        TypeSymbolKind::URange64
    } else if s@ == "URange128"@ {
        TypeSymbolKind::URange128
    } else if s@ == "Range8"@ {
        TypeSymbolKind::Range8
    } else if s@ == "Range16"@ {
        TypeSymbolKind::Range16
    } else if s@ == "Range32"@ {
        TypeSymbolKind::Range32
    } else if s@ == "Range64"@ {
        TypeSymbolKind::Range64
    } else if s@ == "Range128"@ {
        TypeSymbolKind::Range128
    } else if s@ == "Float32"@ {
        TypeSymbolKind::Float32
    } else if s@ == "Float64"@ {
        TypeSymbolKind::Float64
    } else if s@ == "Str"@ {
        TypeSymbolKind::Str
    } else if s@ == "Ptr"@ {
        TypeSymbolKind::Ptr
    } else if s@ == "Ref"@ {
        TypeSymbolKind::Ref
    } else if s@ == "Tuple"@ {
        TypeSymbolKind::Tuple
    } else if s@ == "Array"@ {
        TypeSymbolKind::Array
    } else if s@ == "Func"@ {
        TypeSymbolKind::Func
    } else if s@ == "Node"@ {
        TypeSymbolKind::Node
    } else {
        TypeSymbolKind::Custom(s)
    }
}

impl<'a> TypeSymbolKind<'a> {
    /// The name of this kind; a custom kind gives back its own identifier.
    pub fn as_str(&self) -> (r: &'a str)
        ensures
            r@ == kind_name(*self),
            r == kind_str(*self),
            self is Custom ==> r == self->Custom_0,
    {
        match self {
            TypeSymbolKind::Bool => "Bool",
            TypeSymbolKind::UInt8 => "UInt8",
            TypeSymbolKind::UInt16 => "UInt16",
            TypeSymbolKind::UInt32 => "UInt32",
            TypeSymbolKind::UInt64 => "UInt64",
            TypeSymbolKind::UInt128 => "UInt128",
            TypeSymbolKind::Int8 => "Int8",
            TypeSymbolKind::Int16 => "Int16",
            TypeSymbolKind::Int32 => "Int32",
            TypeSymbolKind::Int64 => "Int64",
            TypeSymbolKind::Int128 => "Int128",
            TypeSymbolKind::URange8 => "URange8",
            TypeSymbolKind::URange16 => "URange16",
            TypeSymbolKind::URange32 => "URange32",
            TypeSymbolKind::URange64 => "URange64",
            TypeSymbolKind::URange128 => "URange128",
            TypeSymbolKind::Range8 => "Range8",
            TypeSymbolKind::Range16 => "Range16",
            TypeSymbolKind::Range32 => "Range32",
            TypeSymbolKind::Range64 => "Range64",
            TypeSymbolKind::Range128 => "Range128",
            TypeSymbolKind::Float32 => "Float32",
            TypeSymbolKind::Float64 => "Float64",
            TypeSymbolKind::Str => "Str",
            TypeSymbolKind::Ptr => "Ptr",
            TypeSymbolKind::Ref => "Ref",
            TypeSymbolKind::Tuple => "Tuple",
            TypeSymbolKind::Array => "Array",
            TypeSymbolKind::Func => "Func",
            TypeSymbolKind::Node => "Node",
            TypeSymbolKind::Custom(id) => *id,
        }
    }

    /// The kind that the name `s` stands for: a builtin kind for a builtin
    /// name, else a custom kind named `s`.
    pub fn from_str(s: &'a str) -> (r: Self)
        ensures
            r == kind_of_name(s),
    {
        if str_equals(s, "Bool") {
            TypeSymbolKind::Bool
        } else if str_equals(s, "UInt8") {
            TypeSymbolKind::UInt8
        } else if str_equals(s, "UInt16") {
            TypeSymbolKind::UInt16
        } else if str_equals(s, "UInt32") {
            TypeSymbolKind::UInt32
        } else if str_equals(s, "UInt64") {
            TypeSymbolKind::UInt64
        } else if str_equals(s, "UInt128") {
            TypeSymbolKind::UInt128
        } else if str_equals(s, "Int8") {
            TypeSymbolKind::Int8
        } else if str_equals(s, "Int16") {
            TypeSymbolKind::Int16
        } else if str_equals(s, "Int32") {
            TypeSymbolKind::Int32
        } else if str_equals(s, "Int64") {
            TypeSymbolKind::Int64
        } else if str_equals(s, "Int128") {
            TypeSymbolKind::Int128
        } else if str_equals(s, "URange8") {
            TypeSymbolKind::URange8
        } else if str_equals(s, "URange16") {
            TypeSymbolKind::URange16
        } else if str_equals(s, "URange32") {
            TypeSymbolKind::URange32
        } else if str_equals(s, "URange64") {
            TypeSymbolKind::URange64
        } else if str_equals(s, "URange128") {
            TypeSymbolKind::URange128
        } else if str_equals(s, "Range8") {
            TypeSymbolKind::Range8
        } else if str_equals(s, "Range16") {
            TypeSymbolKind::Range16
        } else if str_equals(s, "Range32") {
            TypeSymbolKind::Range32
        } else if str_equals(s, "Range64") {
            TypeSymbolKind::Range64
        } else if str_equals(s, "Range128") {
            TypeSymbolKind::Range128
        } else if str_equals(s, "Float32") {
            TypeSymbolKind::Float32
        } else if str_equals(s, "Float64") {
            TypeSymbolKind::Float64
        } else if str_equals(s, "Str") {
            TypeSymbolKind::Str
        } else if str_equals(s, "Ptr") {
            TypeSymbolKind::Ptr
        } else if str_equals(s, "Ref") {
            TypeSymbolKind::Ref
        } else if str_equals(s, "Tuple") {
            TypeSymbolKind::Tuple
        } else if str_equals(s, "Array") {
            TypeSymbolKind::Array
        } else if str_equals(s, "Func") {
            TypeSymbolKind::Func
        } else if str_equals(s, "Node") {
            TypeSymbolKind::Node
        } else {
            TypeSymbolKind::Custom(s)
        }
    }
}


/// Reading back the name of a kind gives the kind again, unless the kind is a
/// custom type whose name is the name of a builtin type.
#[verifier::rlimit(40)]
pub proof fn lemma_name_then_kind<'a>(k: TypeSymbolKind<'a>, s: &'a str)
    requires
        s@ == kind_name(k),
        k is Custom ==> s == k->Custom_0,
        k is Custom ==> !is_builtin_name(kind_name(k)),
    ensures
        kind_of_name(s) == k,
{
    reveal_strlit("Bool");
    reveal_strlit("UInt8");
    reveal_strlit("UInt16");
    reveal_strlit("UInt32");
    reveal_strlit("UInt64");
    reveal_strlit("UInt128");
    reveal_strlit("Int8");
    reveal_strlit("Int16");
    reveal_strlit("Int32");
    reveal_strlit("Int64");
    reveal_strlit("Int128");
    reveal_strlit("URange8");
    reveal_strlit("URange16");
    reveal_strlit("URange32");
    reveal_strlit("URange64");
    reveal_strlit("URange128");
    reveal_strlit("Range8");
    reveal_strlit("Range16");
    reveal_strlit("Range32");
    reveal_strlit("Range64");
    reveal_strlit("Range128");
    reveal_strlit("Float32");
    reveal_strlit("Float64");
    reveal_strlit("Str");
    reveal_strlit("Ptr");
    reveal_strlit("Ref");
    reveal_strlit("Tuple");
    reveal_strlit("Array");
    reveal_strlit("Func");
    reveal_strlit("Node");
    match k {
        TypeSymbolKind::Custom(id) => {
            assert(s == id);
            assert(!is_builtin_name(s@));
            assert(kind_of_name(s) == TypeSymbolKind::Custom(s));
        },
        TypeSymbolKind::Bool => {
            assert(s@ =~= "Bool"@);
        },
        TypeSymbolKind::UInt8 => {
            assert(s@ =~= "UInt8"@);
        },
        TypeSymbolKind::UInt16 => {
            assert(s@ =~= "UInt16"@);
        },
        TypeSymbolKind::UInt32 => {
            assert(s@ =~= "UInt32"@);
            assert("UInt32"@[4] != "UInt16"@[4]);
        },
        TypeSymbolKind::UInt64 => {
            assert(s@ =~= "UInt64"@);
            assert("UInt64"@[4] != "UInt16"@[4]);
            assert("UInt64"@[4] != "UInt32"@[4]);
        },
        TypeSymbolKind::UInt128 => {
            assert(s@ =~= "UInt128"@);
        },
        TypeSymbolKind::Int8 => {
            assert(s@ =~= "Int8"@);
            assert("Int8"@[0] != "Bool"@[0]);
        },
        TypeSymbolKind::Int16 => {
            assert(s@ =~= "Int16"@);
            assert("Int16"@[0] != "UInt8"@[0]);
        },
        TypeSymbolKind::Int32 => {
            assert(s@ =~= "Int32"@);
            assert("Int32"@[0] != "UInt8"@[0]);
            assert("Int32"@[3] != "Int16"@[3]);
        },
        TypeSymbolKind::Int64 => {
            assert(s@ =~= "Int64"@);
            assert("Int64"@[0] != "UInt8"@[0]);
            assert("Int64"@[3] != "Int16"@[3]);
            assert("Int64"@[3] != "Int32"@[3]);
        },
        TypeSymbolKind::Int128 => {
            assert(s@ =~= "Int128"@);
            assert("Int128"@[0] != "UInt16"@[0]);
            assert("Int128"@[0] != "UInt32"@[0]);
            assert("Int128"@[0] != "UInt64"@[0]);
        },
        TypeSymbolKind::URange8 => {
            assert(s@ =~= "URange8"@);
            assert("URange8"@[1] != "UInt128"@[1]);
        },
        TypeSymbolKind::URange16 => {
            assert(s@ =~= "URange16"@);
        },
        TypeSymbolKind::URange32 => {
            assert(s@ =~= "URange32"@);
            assert("URange32"@[6] != "URange16"@[6]);
        },
        TypeSymbolKind::URange64 => {
            assert(s@ =~= "URange64"@);
            assert("URange64"@[6] != "URange16"@[6]);
            assert("URange64"@[6] != "URange32"@[6]);
        },
        TypeSymbolKind::URange128 => {
            assert(s@ =~= "URange128"@);
        },
        TypeSymbolKind::Range8 => {
            assert(s@ =~= "Range8"@);
            assert("Range8"@[0] != "UInt16"@[0]);
            assert("Range8"@[0] != "UInt32"@[0]);
            assert("Range8"@[0] != "UInt64"@[0]);
            assert("Range8"@[0] != "Int128"@[0]);
        },
        TypeSymbolKind::Range16 => {
            assert(s@ =~= "Range16"@);
            assert("Range16"@[0] != "UInt128"@[0]);
            assert("Range16"@[0] != "URange8"@[0]);
        },
        TypeSymbolKind::Range32 => {
            assert(s@ =~= "Range32"@);
            assert("Range32"@[0] != "UInt128"@[0]);
            assert("Range32"@[0] != "URange8"@[0]);
            assert("Range32"@[5] != "Range16"@[5]);
        },
        TypeSymbolKind::Range64 => {
            assert(s@ =~= "Range64"@);
            assert("Range64"@[0] != "UInt128"@[0]);
            assert("Range64"@[0] != "URange8"@[0]);
            assert("Range64"@[5] != "Range16"@[5]);
            assert("Range64"@[5] != "Range32"@[5]);
        },
        TypeSymbolKind::Range128 => {
            assert(s@ =~= "Range128"@);
            assert("Range128"@[0] != "URange16"@[0]);
            assert("Range128"@[0] != "URange32"@[0]);
            assert("Range128"@[0] != "URange64"@[0]);
        },
        TypeSymbolKind::Float32 => {
            assert(s@ =~= "Float32"@);
            assert("Float32"@[0] != "UInt128"@[0]);
            assert("Float32"@[0] != "URange8"@[0]);
            assert("Float32"@[0] != "Range16"@[0]);
            assert("Float32"@[0] != "Range32"@[0]);
            assert("Float32"@[0] != "Range64"@[0]);
        },
        TypeSymbolKind::Float64 => {
            assert(s@ =~= "Float64"@);
            assert("Float64"@[0] != "UInt128"@[0]);
            assert("Float64"@[0] != "URange8"@[0]);
            assert("Float64"@[0] != "Range16"@[0]);
            assert("Float64"@[0] != "Range32"@[0]);
            assert("Float64"@[0] != "Range64"@[0]);
            assert("Float64"@[5] != "Float32"@[5]);
        },
        TypeSymbolKind::Str => {
            assert(s@ =~= "Str"@);
        },
        TypeSymbolKind::Ptr => {
            assert(s@ =~= "Ptr"@);
            assert("Ptr"@[0] != "Str"@[0]);
        },
        TypeSymbolKind::Ref => {
            assert(s@ =~= "Ref"@);
            assert("Ref"@[0] != "Str"@[0]);
            assert("Ref"@[0] != "Ptr"@[0]);
        },
        TypeSymbolKind::Tuple => {
            assert(s@ =~= "Tuple"@);
            assert("Tuple"@[0] != "UInt8"@[0]);
            assert("Tuple"@[0] != "Int16"@[0]);
            assert("Tuple"@[0] != "Int32"@[0]);
            assert("Tuple"@[0] != "Int64"@[0]);
        },
        TypeSymbolKind::Array => {
            assert(s@ =~= "Array"@);
            assert("Array"@[0] != "UInt8"@[0]);
            assert("Array"@[0] != "Int16"@[0]);
            assert("Array"@[0] != "Int32"@[0]);
            assert("Array"@[0] != "Int64"@[0]);
            assert("Array"@[0] != "Tuple"@[0]);
        },
        TypeSymbolKind::Func => {
            assert(s@ =~= "Func"@);
            assert("Func"@[0] != "Bool"@[0]);
            assert("Func"@[0] != "Int8"@[0]);
        },
        TypeSymbolKind::Node => {
            assert(s@ =~= "Node"@);
            assert("Node"@[0] != "Bool"@[0]);
            assert("Node"@[0] != "Int8"@[0]);
            assert("Node"@[0] != "Func"@[0]);
        },
    }
}

/// The name of the kind read from `s` is `s`.
pub proof fn lemma_kind_then_name<'a>(s: &'a str)
    ensures
        kind_name(kind_of_name(s)) == s@,
        kind_of_name(s) is Custom <==> !is_builtin_name(s@),
{
    reveal_strlit("Bool");
    reveal_strlit("UInt8");
    reveal_strlit("UInt16");
    reveal_strlit("UInt32");
    reveal_strlit("UInt64");
    reveal_strlit("UInt128");
    reveal_strlit("Int8");
    reveal_strlit("Int16");
    reveal_strlit("Int32");
    reveal_strlit("Int64");
    reveal_strlit("Int128");
    reveal_strlit("URange8");
    reveal_strlit("URange16");
    reveal_strlit("URange32");
    reveal_strlit("URange64");
    reveal_strlit("URange128");
    reveal_strlit("Range8");
    reveal_strlit("Range16");
    reveal_strlit("Range32");
    reveal_strlit("Range64");
    reveal_strlit("Range128");
    reveal_strlit("Float32");
    reveal_strlit("Float64");
    reveal_strlit("Str");
    reveal_strlit("Ptr");
    reveal_strlit("Ref");
    reveal_strlit("Tuple");
    reveal_strlit("Array");
    reveal_strlit("Func");
    reveal_strlit("Node");
}

} // verus!
