//! The grammar of type declarations, read back: a reader from SQL text to
//! the type model, and the proof that reading a rendered type gives the type.
use vstd::prelude::*;

use crate::data_type::{decimal_ok, dotted, lemma_type_text_nonempty, type_text, well_formed, TypeModel};
use crate::decimal::{decimal, digit_char};

verus! {

/// The type keywords, one for each kind of type that is not custom or an array.
pub enum Keyword {
    Char,
    Varchar,
    Uuid,
    Clob,
    Binary,
    Varbinary,
    Blob,
    Numeric,
    Float,
    SmallInt,
    Int,
    BigInt,
    Real,
    Double,
    Boolean,
    Date,
    Time,
    Timestamp,
    Interval,
    Regclass,
    Text,
    Json,
    Bytea,
}

/// The lowercase spelling of a keyword.
pub open spec fn keyword_text(k: Keyword) -> Seq<char> {
    match k {
        Keyword::Char => "char"@,
        Keyword::Varchar => "character varying"@,
        Keyword::Uuid => "uuid"@,
        Keyword::Clob => "clob"@,
        Keyword::Binary => "binary"@,
        Keyword::Varbinary => "varbinary"@,
        Keyword::Blob => "blob"@,
        Keyword::Numeric => "numeric"@,
        Keyword::Float => "float"@,
        Keyword::SmallInt => "smallint"@,
        Keyword::Int => "int"@,
        Keyword::BigInt => "bigint"@,
        Keyword::Real => "real"@,
        Keyword::Double => "double"@,
        Keyword::Boolean => "boolean"@,
        Keyword::Date => "date"@,
        Keyword::Time => "time"@,
        Keyword::Timestamp => "timestamp"@,
        Keyword::Interval => "interval"@,
        Keyword::Regclass => "regclass"@,
        Keyword::Text => "text"@,
        Keyword::Json => "json"@,
        Keyword::Bytea => "bytea"@,
    }
}

proof fn reveal_keywords()
    ensures
        "char"@ == seq!['c', 'h', 'a', 'r'],
        "character varying"@ == seq!['c', 'h', 'a', 'r', 'a', 'c', 't', 'e', 'r', ' ', 'v', 'a', 'r', 'y', 'i', 'n', 'g'],
        "uuid"@ == seq!['u', 'u', 'i', 'd'],
        "clob"@ == seq!['c', 'l', 'o', 'b'],
        "binary"@ == seq!['b', 'i', 'n', 'a', 'r', 'y'],
        "varbinary"@ == seq!['v', 'a', 'r', 'b', 'i', 'n', 'a', 'r', 'y'],
        "blob"@ == seq!['b', 'l', 'o', 'b'],
        "numeric"@ == seq!['n', 'u', 'm', 'e', 'r', 'i', 'c'],
        "float"@ == seq!['f', 'l', 'o', 'a', 't'],
        "smallint"@ == seq!['s', 'm', 'a', 'l', 'l', 'i', 'n', 't'],
        "int"@ == seq!['i', 'n', 't'],
        "bigint"@ == seq!['b', 'i', 'g', 'i', 'n', 't'],
        "real"@ == seq!['r', 'e', 'a', 'l'],
        "double"@ == seq!['d', 'o', 'u', 'b', 'l', 'e'],
        "boolean"@ == seq!['b', 'o', 'o', 'l', 'e', 'a', 'n'],
        "date"@ == seq!['d', 'a', 't', 'e'],
        "time"@ == seq!['t', 'i', 'm', 'e'],
        "timestamp"@ == seq!['t', 'i', 'm', 'e', 's', 't', 'a', 'm', 'p'],
        "interval"@ == seq!['i', 'n', 't', 'e', 'r', 'v', 'a', 'l'],
        "regclass"@ == seq!['r', 'e', 'g', 'c', 'l', 'a', 's', 's'],
        "text"@ == seq!['t', 'e', 'x', 't'],
        "json"@ == seq!['j', 's', 'o', 'n'],
        "bytea"@ == seq!['b', 'y', 't', 'e', 'a'],
{
    reveal_strlit("char");
    reveal_strlit("character varying");
    reveal_strlit("uuid");
    reveal_strlit("clob");
    reveal_strlit("binary");
    reveal_strlit("varbinary");
    reveal_strlit("blob");
    reveal_strlit("numeric");
    reveal_strlit("float");
    reveal_strlit("smallint");
    reveal_strlit("int");
    reveal_strlit("bigint");
    reveal_strlit("real");
    reveal_strlit("double");
    reveal_strlit("boolean");
    reveal_strlit("date");
    reveal_strlit("time");
    reveal_strlit("timestamp");
    reveal_strlit("interval");
    reveal_strlit("regclass");
    reveal_strlit("text");
    reveal_strlit("json");
    reveal_strlit("bytea");
    assert("char"@ =~= seq!['c', 'h', 'a', 'r']);
    assert("character varying"@ =~= seq!['c', 'h', 'a', 'r', 'a', 'c', 't', 'e', 'r', ' ', 'v', 'a', 'r', 'y', 'i', 'n', 'g']);
    assert("uuid"@ =~= seq!['u', 'u', 'i', 'd']);
    assert("clob"@ =~= seq!['c', 'l', 'o', 'b']);
    assert("binary"@ =~= seq!['b', 'i', 'n', 'a', 'r', 'y']);
    assert("varbinary"@ =~= seq!['v', 'a', 'r', 'b', 'i', 'n', 'a', 'r', 'y']);
    assert("blob"@ =~= seq!['b', 'l', 'o', 'b']);
    assert("numeric"@ =~= seq!['n', 'u', 'm', 'e', 'r', 'i', 'c']);
    assert("float"@ =~= seq!['f', 'l', 'o', 'a', 't']);
    assert("smallint"@ =~= seq!['s', 'm', 'a', 'l', 'l', 'i', 'n', 't']);
    assert("int"@ =~= seq!['i', 'n', 't']);
    assert("bigint"@ =~= seq!['b', 'i', 'g', 'i', 'n', 't']);
    assert("real"@ =~= seq!['r', 'e', 'a', 'l']);
    assert("double"@ =~= seq!['d', 'o', 'u', 'b', 'l', 'e']);
    assert("boolean"@ =~= seq!['b', 'o', 'o', 'l', 'e', 'a', 'n']);
    assert("date"@ =~= seq!['d', 'a', 't', 'e']);
    assert("time"@ =~= seq!['t', 'i', 'm', 'e']);
    assert("timestamp"@ =~= seq!['t', 'i', 'm', 'e', 's', 't', 'a', 'm', 'p']);
    assert("interval"@ =~= seq!['i', 'n', 't', 'e', 'r', 'v', 'a', 'l']);
    assert("regclass"@ =~= seq!['r', 'e', 'g', 'c', 'l', 'a', 's', 's']);
    assert("text"@ =~= seq!['t', 'e', 'x', 't']);
    assert("json"@ =~= seq!['j', 's', 'o', 'n']);
    assert("bytea"@ =~= seq!['b', 'y', 't', 'e', 'a']);
}

/// The length and first three characters of a keyword, as one number.
spec fn fingerprint(w: Seq<char>) -> int
    recommends
        w.len() >= 3,
{
    ((w.len() * 128 + w[0] as int) * 128 + w[1] as int) * 128 + w[2] as int
}

spec fn keyword_code(k: Keyword) -> int {
    match k {
        Keyword::Char => 10024033,
        Keyword::Varchar => 37287009,
        Keyword::Uuid => 10320617,
        Keyword::Clob => 10024559,
        Keyword::Binary => 14202094,
        Keyword::Varbinary => 20820210,
        Keyword::Blob => 10008175,
        Keyword::Numeric => 16497389,
        Keyword::Float => 12170863,
        Keyword::SmallInt => 18675425,
        Keyword::Int => 8025972,
        Keyword::BigInt => 14202087,
        Keyword::Real => 10269409,
        Keyword::Double => 14235637,
        Keyword::Boolean => 16300015,
        Keyword::Date => 10039540,
        Keyword::Time => 10302701,
        Keyword::Timestamp => 20788461,
        Keyword::Interval => 18511732,
        Keyword::Regclass => 18658023,
        Keyword::Text => 10302200,
        Keyword::Json => 10140143,
        Keyword::Bytea => 12106996,
    }
}

proof fn lemma_keyword_fingerprint(k: Keyword)
    ensures
        fingerprint(keyword_text(k)) == keyword_code(k),
{
    reveal_keywords();
}

/// Distinct keywords are spelled differently.
proof fn lemma_keyword_text_injective(k1: Keyword, k2: Keyword)
    requires
        keyword_text(k1) == keyword_text(k2),
    ensures
        k1 == k2,
{
    lemma_keyword_fingerprint(k1);
    lemma_keyword_fingerprint(k2);
}

/// The index of the first `c` in `s`, or the length of `s` when there is none.
pub open spec fn first_index(s: Seq<char>, c: char) -> nat
    decreases s.len(),
{
    if s.len() == 0 {
        0
    } else if s[0] == c {
        0
    } else {
        1 + first_index(s.drop_first(), c)
    }
}

/// The index of the last `c` in `s`, or -1 when there is none.
pub open spec fn last_index(s: Seq<char>, c: char) -> int
    decreases s.len(),
{
    if s.len() == 0 {
        -1
    } else if s.last() == c {
        s.len() - 1
    } else {
        last_index(s.drop_last(), c)
    }
}

proof fn lemma_first_index(a: Seq<char>, b: Seq<char>, c: char)
    requires
        forall|i: int| 0 <= i < a.len() ==> a[i] != c,
        b.len() == 0 || b[0] == c,
    ensures
        first_index(a + b, c) == a.len(),
    decreases a.len(),
{
    if a.len() > 0 {
        assert((a + b).drop_first() =~= a.drop_first() + b);
        lemma_first_index(a.drop_first(), b, c);
    } else {
        assert(a + b =~= b);
    }
}

proof fn lemma_last_index(a: Seq<char>, b: Seq<char>, c: char)
    requires
        forall|i: int| 0 <= i < b.len() ==> b[i] != c,
    ensures
        last_index(a.push(c) + b, c) == a.len(),
        last_index(b, c) == -1,
    decreases b.len(),
{
    if b.len() > 0 {
        assert((a.push(c) + b).drop_last() =~= a.push(c) + b.drop_last());
        lemma_last_index(a, b.drop_last(), c);
    } else {
        assert(a.push(c) + b =~= a.push(c));
    }
}

/// A decimal digit character.
pub open spec fn is_digit(c: char) -> bool {
    c == '0' || c == '1' || c == '2' || c == '3' || c == '4' || c == '5' || c == '6' || c == '7'
        || c == '8' || c == '9'
}

/// The value of a decimal digit character.
pub open spec fn digit_value(c: char) -> nat {
    if c == '1' {
        1
    } else if c == '2' {
        2
    } else if c == '3' {
        3
    } else if c == '4' {
        4
    } else if c == '5' {
        5
    } else if c == '6' {
        6
    } else if c == '7' {
        7
    } else if c == '8' {
        8
    } else if c == '9' {
        9
    } else {
        0
    }
}

/// The value of a string of decimal digits.
pub open spec fn digits_value(s: Seq<char>) -> nat
    decreases s.len(),
{
    if s.len() == 0 {
        0
    } else {
        digits_value(s.drop_last()) * 10 + digit_value(s.last())
    }
}

/// A non-empty string of decimal digits, read as a number.
pub open spec fn read_number(s: Seq<char>) -> Option<nat> {
    if s.len() > 0 && forall|i: int| 0 <= i < s.len() ==> is_digit(#[trigger] s[i]) {
        Some(digits_value(s))
    } else {
        None
    }
}

proof fn lemma_read_decimal(n: nat)
    ensures
        read_number(decimal(n)) == Some(n),
        forall|i: int| 0 <= i < decimal(n).len() ==> is_digit(#[trigger] decimal(n)[i]),
        decimal(n).len() > 0,
    decreases n,
{
    let d = n % 10;
    assert(digit_value(digit_char(d)) == d && is_digit(digit_char(d)));
    if n >= 10 {
        lemma_read_decimal(n / 10);
        assert(decimal(n).drop_last() =~= decimal(n / 10));
        assert(digits_value(decimal(n)) == (n / 10) * 10 + d);
        assert((n / 10) * 10 + d == n);
    } else {
        assert(decimal(n).drop_last() =~= Seq::<char>::empty());
        assert(digits_value(Seq::<char>::empty()) == 0);
    }
    assert(forall|i: int| 0 <= i < decimal(n).len() ==> is_digit(#[trigger] decimal(n)[i]));
    assert(decimal(n).len() > 0);
}

/// The parenthesized numbers that may follow a type keyword.
pub enum TypeArgs {
    Absent,
    One(nat),
    Two(nat, nat),
}

/// The SQL text of the arguments: nothing, `(N)` or `(P,S)`.
pub open spec fn args_text(a: TypeArgs) -> Seq<char> {
    match a {
        TypeArgs::Absent => Seq::empty(),
        TypeArgs::One(n) => "("@ + decimal(n) + ")"@,
        TypeArgs::Two(p, q) => "("@ + decimal(p) + ","@ + decimal(q) + ")"@,
    }
}

/// Reads nothing, `(N)` or `(P,S)`.
pub open spec fn read_args(a: Seq<char>) -> Option<TypeArgs> {
    if a.len() == 0 {
        Some(TypeArgs::Absent)
    } else if a.len() >= 2 && a[0] == '(' && a.last() == ')' {
        let inner = a.subrange(1, a.len() - 1);
        let j = first_index(inner, ',');
        if j < inner.len() {
            match (read_number(inner.take(j as int)), read_number(inner.skip(j + 1 as int))) {
                (Some(p), Some(q)) => Some(TypeArgs::Two(p, q)),
                _ => None,
            }
        } else {
            match read_number(inner) {
                Some(n) => Some(TypeArgs::One(n)),
                None => None,
            }
        }
    } else {
        None
    }
}

proof fn lemma_read_args(a: TypeArgs)
    ensures
        read_args(args_text(a)) == Some(a),
        args_text(a).len() > 0 ==> args_text(a)[0] == '(' && args_text(a).last() == ')',
{
    reveal_strlit("(");
    reveal_strlit(")");
    reveal_strlit(",");
    let t = args_text(a);
    match a {
        TypeArgs::Absent => {},
        TypeArgs::One(n) => {
            lemma_read_decimal(n);
            let inner = t.subrange(1, t.len() - 1);
            assert(inner =~= decimal(n));
            assert(decimal(n) + Seq::empty() =~= decimal(n));
            lemma_first_index(decimal(n), Seq::empty(), ',');
        },
        TypeArgs::Two(p, q) => {
            lemma_read_decimal(p);
            lemma_read_decimal(q);
            let inner = t.subrange(1, t.len() - 1);
            assert(inner =~= decimal(p) + (","@ + decimal(q)));
            lemma_first_index(decimal(p), ","@ + decimal(q), ',');
            assert(inner.take(decimal(p).len() as int) =~= decimal(p));
            assert(inner.skip(decimal(p).len() + 1 as int) =~= decimal(q));
        },
    }
}

/// The keyword spelled `w`, if there is one.
pub open spec fn keyword_named(w: Seq<char>) -> Option<Keyword> {
    if exists|k: Keyword| keyword_text(k) == w {
        Some(choose|k: Keyword| keyword_text(k) == w)
    } else {
        None
    }
}

proof fn lemma_keyword_named(k: Keyword)
    ensures
        keyword_named(keyword_text(k)) == Some(k),
{
    let w = keyword_text(k);
    assert(exists|k2: Keyword| keyword_text(k2) == w);
    let k2 = choose|k2: Keyword| keyword_text(k2) == w;
    lemma_keyword_text_injective(k, k2);
}

/// The type that a keyword with its arguments declares.
pub open spec fn keyword_type(k: Keyword, a: TypeArgs) -> Option<TypeModel> {
    match k {
        Keyword::Char => match a {
            TypeArgs::Absent => Some(TypeModel::Char(None)),
            TypeArgs::One(n) => Some(TypeModel::Char(Some(n))),
            _ => None,
        },
        Keyword::Varchar => match a {
            TypeArgs::Absent => Some(TypeModel::Varchar(None)),
            TypeArgs::One(n) => Some(TypeModel::Varchar(Some(n))),
            _ => None,
        },
        Keyword::Uuid => if a is Absent {
            Some(TypeModel::Uuid)
        } else {
            None
        },
        Keyword::Clob => match a {
            TypeArgs::One(n) => Some(TypeModel::Clob(n)),
            _ => None,
        },
        Keyword::Binary => match a {
            TypeArgs::One(n) => Some(TypeModel::Binary(n)),
            _ => None,
        },
        Keyword::Varbinary => match a {
            TypeArgs::One(n) => Some(TypeModel::Varbinary(n)),
            _ => None,
        },
        Keyword::Blob => match a {
            TypeArgs::One(n) => Some(TypeModel::Blob(n)),
            _ => None,
        },
        Keyword::Numeric => match a {
            TypeArgs::Absent => Some(TypeModel::Decimal(None, None)),
            TypeArgs::One(p) => Some(TypeModel::Decimal(Some(p), None)),
            TypeArgs::Two(p, q) => Some(TypeModel::Decimal(Some(p), Some(q))),
        },
        Keyword::Float => match a {
            TypeArgs::Absent => Some(TypeModel::Float(None)),
            TypeArgs::One(n) => Some(TypeModel::Float(Some(n))),
            _ => None,
        },
        Keyword::SmallInt => if a is Absent {
            Some(TypeModel::SmallInt)
        } else {
            None
        },
        Keyword::Int => if a is Absent {
            Some(TypeModel::Int)
        } else {
            None
        },
        Keyword::BigInt => if a is Absent {
            Some(TypeModel::BigInt)
        } else {
            None
        },
        Keyword::Real => if a is Absent {
            Some(TypeModel::Real)
        } else {
            None
        },
        Keyword::Double => if a is Absent {
            Some(TypeModel::Double)
        } else {
            None
        },
        Keyword::Boolean => if a is Absent {
            Some(TypeModel::Boolean)
        } else {
            None
        },
        Keyword::Date => if a is Absent {
            Some(TypeModel::Date)
        } else {
            None
        },
        Keyword::Time => if a is Absent {
            Some(TypeModel::Time)
        } else {
            None
        },
        Keyword::Timestamp => if a is Absent {
            Some(TypeModel::Timestamp)
        } else {
            None
        },
        Keyword::Interval => if a is Absent {
            Some(TypeModel::Interval)
        } else {
            None
        },
        Keyword::Regclass => if a is Absent {
            Some(TypeModel::Regclass)
        } else {
            None
        },
        Keyword::Text => if a is Absent {
            Some(TypeModel::Text)
        } else {
            None
        },
        Keyword::Json => if a is Absent {
            Some(TypeModel::Json)
        } else {
            None
        },
        Keyword::Bytea => if a is Absent {
            Some(TypeModel::Bytea)
        } else {
            None
        },
    }
}

/// A character that may stand in an unquoted identifier.
pub open spec fn is_name_char(c: char) -> bool {
    ||| ('a' <= c && c <= 'z')
    ||| ('A' <= c && c <= 'Z')
    ||| ('0' <= c && c <= '9')
    ||| c == '_'
}

/// The parts of a dotted name, split at each dot.
pub open spec fn split_name(w: Seq<char>) -> Seq<Seq<char>>
    decreases w.len(),
{
    let j = last_index(w, '.');
    if 0 <= j < w.len() {
        split_name(w.take(j)).push(w.skip(j + 1))
    } else {
        seq![w]
    }
}

/// Reads a type declaration without array suffixes: a keyword with its
/// arguments, or a dotted name.
pub open spec fn read_base(s: Seq<char>) -> Option<TypeModel> {
    let i = first_index(s, '(');
    let w = s.take(i as int);
    let a = s.skip(i as int);
    match keyword_named(w) {
        Some(k) => match read_args(a) {
            Some(args) => keyword_type(k, args),
            None => None,
        },
        None => if a.len() == 0 && w.len() > 0 && forall|j: int|
            0 <= j < w.len() ==> is_name_char(#[trigger] w[j]) || w[j] == '.' {
            Some(TypeModel::Custom(split_name(w)))
        } else {
            None
        },
    }
}

/// Reads a type declaration: a base type followed by any number of `[]`.
pub open spec fn read_type_text(s: Seq<char>) -> Option<TypeModel>
    decreases s.len(),
{
    if s.len() >= 2 && s[s.len() - 2] == '[' && s[s.len() - 1] == ']' {
        match read_type_text(s.take(s.len() - 2)) {
            Some(t) => Some(TypeModel::Array(Box::new(t))),
            None => None,
        }
    } else {
        read_base(s)
    }
}

/// Every custom name in the type is made of identifier parts and is not
/// spelled like a type keyword.
pub open spec fn plain_names(t: TypeModel) -> bool
    decreases t,
{
    match t {
        TypeModel::Custom(parts) => {
            &&& forall|i: int, j: int|
                0 <= i < parts.len() && 0 <= j < parts[i].len() ==> is_name_char(
                    #[trigger] parts[i][j],
                )
            &&& forall|k: Keyword| keyword_text(k) != dotted(parts)
        },
        TypeModel::Array(inner) => plain_names(*inner),
        _ => true,
    }
}

proof fn lemma_keyword_chars(k: Keyword)
    ensures
        forall|i: int|
            0 <= i < keyword_text(k).len() ==> ('a' <= #[trigger] keyword_text(k)[i] && keyword_text(
                k,
            )[i] <= 'z') || keyword_text(k)[i] == ' ',
        keyword_text(k).len() > 0,
{
    reveal_keywords();
}

proof fn lemma_dotted_chars(parts: Seq<Seq<char>>)
    requires
        forall|i: int, j: int|
            0 <= i < parts.len() && 0 <= j < parts[i].len() ==> is_name_char(#[trigger] parts[i][j]),
    ensures
        forall|j: int|
            0 <= j < dotted(parts).len() ==> is_name_char(#[trigger] dotted(parts)[j]) || dotted(
                parts,
            )[j] == '.',
    decreases parts.len(),
{
    reveal_strlit(".");
    if parts.len() > 1 {
        lemma_dotted_chars(parts.drop_last());
        let a = dotted(parts.drop_last());
        let l = parts.last();
        assert(forall|j: int| 0 <= j < l.len() ==> is_name_char(#[trigger] l[j])) by {
            assert(forall|j: int| 0 <= j < l.len() ==> l[j] == parts[parts.len() - 1][j]);
        }
        let d = dotted(parts);
        assert(d =~= a.push('.') + l);
        assert forall|j: int| 0 <= j < d.len() implies is_name_char(#[trigger] d[j]) || d[j]
            == '.' by {
            if j < a.len() {
                assert(d[j] == a[j]);
            } else if j > a.len() {
                assert(d[j] == l[j - a.len() - 1]);
            }
        }
    } else if parts.len() == 1 {
        assert(forall|j: int| 0 <= j < parts[0].len() ==> is_name_char(#[trigger] parts[0][j]));
    }
}

proof fn lemma_split_dotted(parts: Seq<Seq<char>>)
    requires
        parts.len() > 0,
        forall|i: int, j: int|
            0 <= i < parts.len() && 0 <= j < parts[i].len() ==> is_name_char(#[trigger] parts[i][j]),
    ensures
        split_name(dotted(parts)) == parts,
    decreases parts.len(),
{
    reveal_strlit(".");
    if parts.len() == 1 {
        assert(forall|j: int| 0 <= j < parts[0].len() ==> is_name_char(#[trigger] parts[0][j]));
        lemma_last_index(Seq::empty(), parts[0], '.');
        assert(split_name(parts[0]) =~= parts);
    } else {
        let init = parts.drop_last();
        let last = parts.last();
        assert(forall|j: int| 0 <= j < last.len() ==> is_name_char(#[trigger] last[j])) by {
            assert(forall|j: int| 0 <= j < last.len() ==> last[j] == parts[parts.len() - 1][j]);
        }
        let w = dotted(parts);
        assert(w =~= dotted(init).push('.') + last);
        lemma_last_index(dotted(init), last, '.');
        let j = dotted(init).len() as int;
        assert(w.take(j) =~= dotted(init));
        assert(w.skip(j + 1) =~= last);
        lemma_split_dotted(init);
        assert(split_name(w) =~= parts);
    }
}

spec fn optional_args(n: Option<nat>) -> TypeArgs {
    match n {
        Some(n) => TypeArgs::One(n),
        None => TypeArgs::Absent,
    }
}

proof fn lemma_read_leaf(k: Keyword, a: TypeArgs)
    ensures
        read_type_text(keyword_text(k) + args_text(a)) == keyword_type(k, a),
{
    let kw = keyword_text(k);
    let at = args_text(a);
    let s = kw + at;
    lemma_keyword_chars(k);
    lemma_read_args(a);
    lemma_keyword_named(k);
    if at.len() > 0 {
        assert(s[s.len() - 1] == at.last());
    } else {
        assert(s[s.len() - 1] == kw[kw.len() - 1]);
    }
    lemma_first_index(kw, at, '(');
    assert(s.take(kw.len() as int) =~= kw);
    assert(s.skip(kw.len() as int) =~= at);
}

proof fn lemma_read_custom(parts: Seq<Seq<char>>)
    requires
        well_formed(TypeModel::Custom(parts)),
        plain_names(TypeModel::Custom(parts)),
    ensures
        read_type_text(dotted(parts)) == Some(TypeModel::Custom(parts)),
{
    let t = TypeModel::Custom(parts);
    lemma_type_text_nonempty(t);
    lemma_dotted_chars(parts);
    lemma_split_dotted(parts);
    let s = dotted(parts);
    assert(is_name_char(s[s.len() - 1]) || s[s.len() - 1] == '.');
    lemma_first_index(s, Seq::empty(), '(');
    assert(s + Seq::empty() =~= s);
    assert(s.take(s.len() as int) =~= s);
    assert(keyword_named(s) is None);
}

#[verifier::rlimit(40)]
proof fn lemma_read_keyword_leaf(t: TypeModel)
    requires
        decimal_ok(t),
        !(t is Custom),
        !(t is Array),
    ensures
        read_type_text(type_text(t)) == Some(t),
{
    match t {
        TypeModel::Char(n) => {
            lemma_read_leaf(Keyword::Char, optional_args(n));
            assert(type_text(t) =~= keyword_text(Keyword::Char) + args_text(optional_args(n)));
        },
        TypeModel::Varchar(n) => {
            lemma_read_leaf(Keyword::Varchar, optional_args(n));
            assert(type_text(t) =~= keyword_text(Keyword::Varchar) + args_text(optional_args(n)));
        },
        TypeModel::Float(n) => {
            lemma_read_leaf(Keyword::Float, optional_args(n));
            assert(type_text(t) =~= keyword_text(Keyword::Float) + args_text(optional_args(n)));
        },
        TypeModel::Clob(n) => {
            lemma_read_leaf(Keyword::Clob, TypeArgs::One(n));
            assert(type_text(t) =~= keyword_text(Keyword::Clob) + args_text(TypeArgs::One(n)));
        },
        TypeModel::Binary(n) => {
            lemma_read_leaf(Keyword::Binary, TypeArgs::One(n));
            assert(type_text(t) =~= keyword_text(Keyword::Binary) + args_text(TypeArgs::One(n)));
        },
        TypeModel::Varbinary(n) => {
            lemma_read_leaf(Keyword::Varbinary, TypeArgs::One(n));
            assert(type_text(t) =~= keyword_text(Keyword::Varbinary) + args_text(TypeArgs::One(n)));
        },
        TypeModel::Blob(n) => {
            lemma_read_leaf(Keyword::Blob, TypeArgs::One(n));
            assert(type_text(t) =~= keyword_text(Keyword::Blob) + args_text(TypeArgs::One(n)));
        },
        TypeModel::Decimal(p, q) => {
            let a = match q {
                Some(q) => TypeArgs::Two(p.unwrap(), q),
                None => optional_args(p),
            };
            lemma_read_leaf(Keyword::Numeric, a);
            assert(type_text(t) =~= keyword_text(Keyword::Numeric) + args_text(a));
        },
        TypeModel::Uuid => {
            lemma_read_leaf(Keyword::Uuid, TypeArgs::Absent);
            assert(type_text(t) =~= keyword_text(Keyword::Uuid) + args_text(TypeArgs::Absent));
        },
        TypeModel::SmallInt => {
            lemma_read_leaf(Keyword::SmallInt, TypeArgs::Absent);
            assert(type_text(t) =~= keyword_text(Keyword::SmallInt) + args_text(TypeArgs::Absent));
        },
        TypeModel::Int => {
            lemma_read_leaf(Keyword::Int, TypeArgs::Absent);
            assert(type_text(t) =~= keyword_text(Keyword::Int) + args_text(TypeArgs::Absent));
        },
        TypeModel::BigInt => {
            lemma_read_leaf(Keyword::BigInt, TypeArgs::Absent);
            assert(type_text(t) =~= keyword_text(Keyword::BigInt) + args_text(TypeArgs::Absent));
        },
        TypeModel::Real => {
            lemma_read_leaf(Keyword::Real, TypeArgs::Absent);
            assert(type_text(t) =~= keyword_text(Keyword::Real) + args_text(TypeArgs::Absent));
        },
        TypeModel::Double => {
            lemma_read_leaf(Keyword::Double, TypeArgs::Absent);
            assert(type_text(t) =~= keyword_text(Keyword::Double) + args_text(TypeArgs::Absent));
        },
        TypeModel::Boolean => {
            lemma_read_leaf(Keyword::Boolean, TypeArgs::Absent);
            assert(type_text(t) =~= keyword_text(Keyword::Boolean) + args_text(TypeArgs::Absent));
        },
        TypeModel::Date => {
            lemma_read_leaf(Keyword::Date, TypeArgs::Absent);
            assert(type_text(t) =~= keyword_text(Keyword::Date) + args_text(TypeArgs::Absent));
        },
        TypeModel::Time => {
            lemma_read_leaf(Keyword::Time, TypeArgs::Absent);
            assert(type_text(t) =~= keyword_text(Keyword::Time) + args_text(TypeArgs::Absent));
        },
        TypeModel::Timestamp => {
            lemma_read_leaf(Keyword::Timestamp, TypeArgs::Absent);
            assert(type_text(t) =~= keyword_text(Keyword::Timestamp) + args_text(TypeArgs::Absent));
        },
        TypeModel::Interval => {
            lemma_read_leaf(Keyword::Interval, TypeArgs::Absent);
            assert(type_text(t) =~= keyword_text(Keyword::Interval) + args_text(TypeArgs::Absent));
        },
        TypeModel::Regclass => {
            lemma_read_leaf(Keyword::Regclass, TypeArgs::Absent);
            assert(type_text(t) =~= keyword_text(Keyword::Regclass) + args_text(TypeArgs::Absent));
        },
        TypeModel::Text => {
            lemma_read_leaf(Keyword::Text, TypeArgs::Absent);
            assert(type_text(t) =~= keyword_text(Keyword::Text) + args_text(TypeArgs::Absent));
        },
        TypeModel::Json => {
            lemma_read_leaf(Keyword::Json, TypeArgs::Absent);
            assert(type_text(t) =~= keyword_text(Keyword::Json) + args_text(TypeArgs::Absent));
        },
        TypeModel::Bytea => {
            lemma_read_leaf(Keyword::Bytea, TypeArgs::Absent);
            assert(type_text(t) =~= keyword_text(Keyword::Bytea) + args_text(TypeArgs::Absent));
        },
        _ => {},
    }
}

/// Reading back the SQL text of a well-formed type gives the type again,
/// as long as its custom names are plain identifiers that are not spelled
/// like type keywords. A decimal comes back as the same decimal: only the
/// keyword that declared it (`decimal` or `numeric`) is not kept.
pub proof fn lemma_read_type_text(t: TypeModel)
    requires
        well_formed(t),
        plain_names(t),
    ensures
        read_type_text(type_text(t)) == Some(t),
    decreases t,
{
    match t {
        TypeModel::Array(inner) => {
            lemma_read_type_text(*inner);
            reveal_strlit("[]");
            let s = type_text(t);
            assert(s.take(s.len() - 2) =~= type_text(*inner));
        },
        TypeModel::Custom(parts) => lemma_read_custom(parts),
        _ => lemma_read_keyword_leaf(t),
    }
}

} // verus!
