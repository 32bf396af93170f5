//! SQL scalar types and their rendering as SQL type declarations.
use vstd::prelude::*;
use vstd::string::StringExecFns;

use crate::decimal::{decimal, push_decimal};

verus! {

/// A possibly qualified name, such as `schema.my_enum`: its parts in order.
#[derive(Debug, PartialEq, Eq, Hash)]
pub struct ObjectName(pub Vec<String>);

impl View for ObjectName {
    type V = Seq<Seq<char>>;

    open spec fn view(&self) -> Seq<Seq<char>> {
        self.0@.map_values(|part: String| part@)
    }
}

/// The parts of a qualified name joined by dots.
pub open spec fn dotted(parts: Seq<Seq<char>>) -> Seq<char>
    decreases parts.len(),
{
    if parts.len() == 0 {
        Seq::empty()
    } else if parts.len() == 1 {
        parts[0]
    } else {
        dotted(parts.drop_last()) + "."@ + parts.last()
    }
}

impl Clone for ObjectName {
    fn clone(&self) -> (r: Self)
        ensures
            r@ == self@,
    {
        let mut parts: Vec<String> = Vec::new();
        let mut i: usize = 0;
        while i < self.0.len()
            invariant
                i <= self.0@.len(),
                parts@.len() == i,
                forall|j: int| 0 <= j < i ==> parts@[j]@ == self.0@[j]@,
            decreases self.0@.len() - i,
        {
            parts.push(self.0[i].clone());
            i = i + 1;
        }
        let r = ObjectName(parts);
        assert(r@ =~= self@);
        r
    }
}

impl ObjectName {
    /// Appends the dot-joined name to `out`.
    pub fn write_sql(&self, out: &mut String)
        ensures
            final(out)@ == old(out)@ + dotted(self@),
    {
        let ghost start = out@;
        let n = self.0.len();
        let mut i: usize = 0;
        while i < n
            invariant
                n == self.0@.len(),
                i <= n,
                out@ == start + dotted(self@.take(i as int)),
            decreases n - i,
        {
            let ghost before = out@;
            if i > 0 {
                out.append(".");
            }
            out.append(self.0[i].as_str());
            proof {
                let p = self@.take(i as int + 1);
                assert(p.drop_last() =~= self@.take(i as int));
                assert(p.last() == self.0@[i as int]@);
                if i == 0 {
                    assert(dotted(self@.take(0)) =~= Seq::empty());
                    assert(out@ =~= start + dotted(p));
                } else {
                    assert(out@ =~= start + dotted(p));
                }
            }
            i = i + 1;
        }
        assert(self@.take(n as int) =~= self@);
    }

    /// The name as SQL text: its parts joined by dots, with no quoting.
    pub fn to_string(&self) -> (r: String)
        ensures
            r@ == dotted(self@),
    {
        let mut out = String::new();
        self.write_sql(&mut out);
        out
    }
}

/// SQL data types
#[derive(Debug, PartialEq, Eq, Hash)]
pub enum DataType {
    /// Fixed-length character type e.g. CHAR(10)
    Char(Option<u64>),
    /// Variable-length character type e.g. VARCHAR(10)
    Varchar(Option<u64>),
    /// Uuid type
    Uuid,
    /// Large character object e.g. CLOB(1000)
    Clob(u64),
    /// Fixed-length binary type e.g. BINARY(10)
    Binary(u64),
    /// Variable-length binary type e.g. VARBINARY(10)
    Varbinary(u64),
    /// Large binary object e.g. BLOB(1000)
    Blob(u64),
    /// Decimal type with optional precision and scale e.g. DECIMAL(10,2)
    Decimal(Option<u64>, Option<u64>),
    /// Floating point with optional precision e.g. FLOAT(8)
    Float(Option<u64>),
    /// Small integer
    SmallInt,
    /// Integer
    Int,
    /// Big integer
    BigInt,
    /// Floating point e.g. REAL
    Real,
    /// Double e.g. DOUBLE PRECISION
    Double,
    /// Boolean
    Boolean,
    /// Date
    Date,
    /// Time
    Time,
    /// Timestamp
    Timestamp,
    /// Interval
    Interval,
    /// Regclass used in postgresql serial
    Regclass,
    /// Text
    Text,
    /// Json type
    Json,
    /// Bytea
    Bytea,
    /// Custom type such as enums
    Custom(ObjectName),
    /// Arrays
    Array(Box<DataType>),
}

/// The mathematical value of a `DataType`: lengths as naturals, names as
/// sequences of character sequences.
pub enum TypeModel {
    Char(Option<nat>),
    Varchar(Option<nat>),
    Uuid,
    Clob(nat),
    Binary(nat),
    Varbinary(nat),
    Blob(nat),
    Decimal(Option<nat>, Option<nat>),
    Float(Option<nat>),
    SmallInt,
    Int,
    BigInt,
    Real,
    Double,
    Boolean,
    Date,
    Time,
    Timestamp,
    Interval,
    Regclass,
    Text,
    Json,
    Bytea,
    Custom(Seq<Seq<char>>),
    Array(Box<TypeModel>),
}

/// An optional machine integer as an optional natural number.
pub open spec fn nat_option(o: Option<u64>) -> Option<nat> {
    match o {
        Some(n) => Some(n as nat),
        None => None,
    }
}

/// The model of a `DataType`, variant by variant.
pub open spec fn model_of(t: DataType) -> TypeModel
    decreases t,
{
    match t {
        DataType::Char(n) => TypeModel::Char(nat_option(n)),
        DataType::Varchar(n) => TypeModel::Varchar(nat_option(n)),
        DataType::Uuid => TypeModel::Uuid,
        DataType::Clob(n) => TypeModel::Clob(n as nat),
        DataType::Binary(n) => TypeModel::Binary(n as nat),
        DataType::Varbinary(n) => TypeModel::Varbinary(n as nat),
        DataType::Blob(n) => TypeModel::Blob(n as nat),
        DataType::Decimal(p, s) => TypeModel::Decimal(nat_option(p), nat_option(s)),
        DataType::Float(n) => TypeModel::Float(nat_option(n)),
        DataType::SmallInt => TypeModel::SmallInt,
        DataType::Int => TypeModel::Int,
        DataType::BigInt => TypeModel::BigInt,
        DataType::Real => TypeModel::Real,
        DataType::Double => TypeModel::Double,
        DataType::Boolean => TypeModel::Boolean,
        DataType::Date => TypeModel::Date,
        DataType::Time => TypeModel::Time,
        DataType::Timestamp => TypeModel::Timestamp,
        DataType::Interval => TypeModel::Interval,
        DataType::Regclass => TypeModel::Regclass,
        DataType::Text => TypeModel::Text,
        DataType::Json => TypeModel::Json,
        DataType::Bytea => TypeModel::Bytea,
        DataType::Custom(name) => TypeModel::Custom(name@),
        DataType::Array(inner) => TypeModel::Array(Box::new(model_of(*inner))),
    }
}

impl View for DataType {
    type V = TypeModel;

    open spec fn view(&self) -> TypeModel {
        model_of(*self)
    }
}

/// `keyword`, followed by `(N)` when a length `N` is given.
pub open spec fn with_optional_length(keyword: Seq<char>, len: Option<nat>) -> Seq<char> {
    match len {
        Some(n) => keyword + "("@ + decimal(n) + ")"@,
        None => keyword,
    }
}

/// The type has no decimal with a scale but without a precision, at any depth.
pub open spec fn decimal_ok(t: TypeModel) -> bool
    decreases t,
{
    match t {
        TypeModel::Decimal(p, s) => s is Some ==> p is Some,
        TypeModel::Array(inner) => decimal_ok(*inner),
        _ => true,
    }
}

/// A well-formed type: decimals are well formed, and every custom name has
/// at least one part, none of them empty.
pub open spec fn well_formed(t: TypeModel) -> bool
    decreases t,
{
    match t {
        TypeModel::Custom(parts) => parts.len() > 0 && forall|i: int|
            0 <= i < parts.len() ==> #[trigger] parts[i].len() > 0,
        TypeModel::Array(inner) => well_formed(*inner),
        _ => decimal_ok(t),
    }
}

/// The SQL text that declares the type.
pub open spec fn type_text(t: TypeModel) -> Seq<char>
    decreases t,
{
    match t {
        TypeModel::Char(n) => with_optional_length("char"@, n),
        TypeModel::Varchar(n) => with_optional_length("character varying"@, n),
        TypeModel::Uuid => "uuid"@,
        TypeModel::Clob(n) => with_optional_length("clob"@, Some(n)),
        TypeModel::Binary(n) => with_optional_length("binary"@, Some(n)),
        TypeModel::Varbinary(n) => with_optional_length("varbinary"@, Some(n)),
        TypeModel::Blob(n) => with_optional_length("blob"@, Some(n)),
        TypeModel::Decimal(p, s) => match s {
            Some(s) => "numeric"@ + "("@ + decimal(p.unwrap()) + ","@ + decimal(s) + ")"@,
            None => with_optional_length("numeric"@, p),
        },
        TypeModel::Float(n) => with_optional_length("float"@, n),
        TypeModel::SmallInt => "smallint"@,
        TypeModel::Int => "int"@,
        TypeModel::BigInt => "bigint"@,
        TypeModel::Real => "real"@,
        TypeModel::Double => "double"@,
        TypeModel::Boolean => "boolean"@,
        TypeModel::Date => "date"@,
        TypeModel::Time => "time"@,
        TypeModel::Timestamp => "timestamp"@,
        TypeModel::Interval => "interval"@,
        TypeModel::Regclass => "regclass"@,
        TypeModel::Text => "text"@,
        TypeModel::Json => "json"@,
        TypeModel::Bytea => "bytea"@,
        TypeModel::Custom(parts) => dotted(parts),
        TypeModel::Array(inner) => type_text(*inner) + "[]"@,
    }
}

/// Every well-formed type renders as non-empty text.
pub proof fn lemma_type_text_nonempty(t: TypeModel)
    requires
        well_formed(t),
    ensures
        type_text(t).len() > 0,
{
    reveal_strlit("char");
    reveal_strlit("character varying");
    reveal_strlit("uuid");
    reveal_strlit("clob");
    reveal_strlit("binary");
    reveal_strlit("varbinary");
    reveal_strlit("blob");
    reveal_strlit("numeric");
    reveal_strlit("float");
    reveal_strlit("smallint");
    reveal_strlit("int");
    reveal_strlit("bigint");
    reveal_strlit("real");
    reveal_strlit("double");
    reveal_strlit("boolean");
    reveal_strlit("date");
    reveal_strlit("time");
    reveal_strlit("timestamp");
    reveal_strlit("interval");
    reveal_strlit("regclass");
    reveal_strlit("text");
    reveal_strlit("json");
    reveal_strlit("bytea");
    reveal_strlit("[]");
    match t {
        TypeModel::Custom(parts) => {
            assert(parts[parts.len() - 1].len() > 0);
            if parts.len() > 1 {
                assert(dotted(parts).len() >= parts.last().len());
            }
        },
        _ => {},
    }
}

/// Appends `sql_type`, and `(len)` when a length is given, to `out`.
pub fn format_type_with_optional_length(out: &mut String, sql_type: &str, len: &Option<u64>)
    ensures
        final(out)@ == old(out)@ + with_optional_length(sql_type@, nat_option(*len)),
{
    out.append(sql_type);
    if let Some(len) = len {
        out.append("(");
        push_decimal(out, *len);
        out.append(")");
    }
    assert(final(out)@ =~= old(out)@ + with_optional_length(sql_type@, nat_option(*len)));
}

fn format_type_with_length(out: &mut String, sql_type: &str, len: u64)
    ensures
        final(out)@ == old(out)@ + with_optional_length(sql_type@, Some(len as nat)),
{
    format_type_with_optional_length(out, sql_type, &Some(len));
}

impl Clone for DataType {
    fn clone(&self) -> (r: Self)
        ensures
            r@ == self@,
        decreases self,
    {
        match self {
            DataType::Char(n) => DataType::Char(*n),
            DataType::Varchar(n) => DataType::Varchar(*n),
            DataType::Uuid => DataType::Uuid,
            DataType::Clob(n) => DataType::Clob(*n),
            DataType::Binary(n) => DataType::Binary(*n),
            DataType::Varbinary(n) => DataType::Varbinary(*n),
            DataType::Blob(n) => DataType::Blob(*n),
            DataType::Decimal(p, s) => DataType::Decimal(*p, *s),
            DataType::Float(n) => DataType::Float(*n),
            DataType::SmallInt => DataType::SmallInt,
            DataType::Int => DataType::Int,
            DataType::BigInt => DataType::BigInt,
            DataType::Real => DataType::Real,
            DataType::Double => DataType::Double,
            DataType::Boolean => DataType::Boolean,
            DataType::Date => DataType::Date,
            DataType::Time => DataType::Time,
            DataType::Timestamp => DataType::Timestamp,
            DataType::Interval => DataType::Interval,
            DataType::Regclass => DataType::Regclass,
            DataType::Text => DataType::Text,
            DataType::Json => DataType::Json,
            DataType::Bytea => DataType::Bytea,
            DataType::Custom(name) => DataType::Custom(name.clone()),
            DataType::Array(inner) => {
                let inner_copy: DataType = (**inner).clone();
                DataType::Array(Box::new(inner_copy))
            },
        }
    }
}

impl DataType {
    /// Appends the SQL declaration of the type to `out`.
    pub fn write_sql(&self, out: &mut String)
        requires
            decimal_ok(self@),
        ensures
            final(out)@ == old(out)@ + type_text(self@),
        decreases self,
    {
        match self {
            DataType::Char(size) => format_type_with_optional_length(out, "char", size),
            DataType::Varchar(size) => format_type_with_optional_length(
                out,
                "character varying",
                size,
            ),
            DataType::Uuid => out.append("uuid"),
            DataType::Clob(size) => format_type_with_length(out, "clob", *size),
            DataType::Binary(size) => format_type_with_length(out, "binary", *size),
            DataType::Varbinary(size) => format_type_with_length(out, "varbinary", *size),
            DataType::Blob(size) => format_type_with_length(out, "blob", *size),
            DataType::Decimal(precision, scale) => {
                if let Some(scale) = scale {
                    let precision = precision.unwrap();
                    out.append("numeric(");
                    push_decimal(out, precision);
                    out.append(",");
                    push_decimal(out, *scale);
                    out.append(")");
                    proof {
                        reveal_strlit("numeric(");
                        reveal_strlit("numeric");
                        reveal_strlit("(");
                        assert("numeric("@ =~= "numeric"@ + "("@);
                    }
                    assert(final(out)@ =~= old(out)@ + type_text(self@));
                } else {
                    format_type_with_optional_length(out, "numeric", precision)
                }
            },
            DataType::Float(size) => format_type_with_optional_length(out, "float", size),
            DataType::SmallInt => out.append("smallint"),
            DataType::Int => out.append("int"),
            DataType::BigInt => out.append("bigint"),
            DataType::Real => out.append("real"),
            DataType::Double => out.append("double"),
            DataType::Boolean => out.append("boolean"),
            DataType::Date => out.append("date"),
            DataType::Time => out.append("time"),
            DataType::Timestamp => out.append("timestamp"),
            DataType::Interval => out.append("interval"),
            DataType::Regclass => out.append("regclass"),
            DataType::Text => out.append("text"),
            DataType::Json => out.append("json"),
            DataType::Bytea => out.append("bytea"),
            DataType::Array(ty) => {
                ty.write_sql(out);
                out.append("[]");
                assert(final(out)@ =~= old(out)@ + type_text(self@));
            },
            DataType::Custom(ty) => ty.write_sql(out),
        }
    }

    /// The SQL declaration of the type, such as `character varying(10)` or
    /// `int[]`. A decimal with a scale must carry a precision.
    pub fn to_string(&self) -> (r: String)
        requires
            decimal_ok(self@),
        ensures
            r@ == type_text(self@),
    {
        let mut out = String::new();
        self.write_sql(&mut out);
        out
    }
}

} // verus!
