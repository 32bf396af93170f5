use sql_ast::data_type::format_type_with_optional_length;
use sql_ast::{BinaryOperator, DataType, ObjectName, UnaryOperator};

fn custom(parts: &[&str]) -> DataType {
    DataType::Custom(ObjectName(parts.iter().map(|p| p.to_string()).collect()))
}

#[test]
fn decimal_with_scale_renders_as_numeric() {
    assert_eq!(DataType::Decimal(Some(10), Some(2)).to_string(), "numeric(10,2)");
}

#[test]
fn decimal_without_scale() {
    assert_eq!(DataType::Decimal(Some(10), None).to_string(), "numeric(10)");
    assert_eq!(DataType::Decimal(None, None).to_string(), "numeric");
}

#[test]
fn nested_arrays() {
    let t = DataType::Array(Box::new(DataType::Array(Box::new(DataType::Int))));
    assert_eq!(t.to_string(), "int[][]");
}

#[test]
fn array_of_custom() {
    let t = DataType::Array(Box::new(custom(&["my_enum"])));
    assert_eq!(t.to_string(), "my_enum[]");
}

#[test]
fn qualified_custom_name() {
    assert_eq!(custom(&["public", "mood"]).to_string(), "public.mood");
    assert_eq!(ObjectName(vec!["a".to_string(), "b".to_string(), "c".to_string()]).to_string(), "a.b.c");
}

#[test]
fn varchar_optional_length() {
    assert_eq!(DataType::Varchar(None).to_string(), "character varying");
    assert_eq!(DataType::Varchar(Some(10)).to_string(), "character varying(10)");
}

#[test]
fn char_and_float_optional_length() {
    assert_eq!(DataType::Char(None).to_string(), "char");
    assert_eq!(DataType::Char(Some(1)).to_string(), "char(1)");
    assert_eq!(DataType::Float(None).to_string(), "float");
    assert_eq!(DataType::Float(Some(8)).to_string(), "float(8)");
}

#[test]
fn required_lengths() {
    assert_eq!(DataType::Binary(10).to_string(), "binary(10)");
    assert_eq!(DataType::Varbinary(0).to_string(), "varbinary(0)");
    assert_eq!(DataType::Clob(1000).to_string(), "clob(1000)");
    assert_eq!(DataType::Blob(u64::MAX).to_string(), "blob(18446744073709551615)");
}

#[test]
fn keywords_without_parameters() {
    let cases = vec![
        (DataType::Uuid, "uuid"),
        (DataType::SmallInt, "smallint"),
        (DataType::Int, "int"),
        (DataType::BigInt, "bigint"),
        (DataType::Real, "real"),
        (DataType::Double, "double"),
        (DataType::Boolean, "boolean"),
        (DataType::Date, "date"),
        (DataType::Time, "time"),
        (DataType::Timestamp, "timestamp"),
        (DataType::Interval, "interval"),
        (DataType::Regclass, "regclass"),
        (DataType::Text, "text"),
        (DataType::Json, "json"),
        (DataType::Bytea, "bytea"),
    ];
    for (t, text) in cases {
        assert_eq!(t.to_string(), text);
    }
}

#[test]
fn clone_keeps_value() {
    let t = DataType::Array(Box::new(custom(&["s", "e"])));
    let c = t.clone();
    assert_eq!(c, t);
    assert_eq!(c.to_string(), "s.e[]");
}

#[test]
fn optional_length_helper() {
    let mut out = String::from("x ");
    format_type_with_optional_length(&mut out, "varchar", &Some(255));
    assert_eq!(out, "x varchar(255)");
    let mut out = String::new();
    format_type_with_optional_length(&mut out, "varchar", &None);
    assert_eq!(out, "varchar");
}

#[test]
fn operator_tokens() {
    assert_eq!(BinaryOperator::NotEq.to_string(), "<>");
    assert_eq!(UnaryOperator::Not.to_string(), "NOT");
    assert_eq!(BinaryOperator::Ilike.to_string(), "ILIKE");
}

#[test]
fn all_unary_tokens() {
    assert_eq!(UnaryOperator::Plus.to_string(), "+");
    assert_eq!(UnaryOperator::Minus.to_string(), "-");
    assert_eq!(UnaryOperator::Not.to_string(), "NOT");
}

#[test]
fn all_binary_tokens() {
    let cases = vec![
        (BinaryOperator::Plus, "+"),
        (BinaryOperator::Minus, "-"),
        (BinaryOperator::Multiply, "*"),
        (BinaryOperator::Divide, "/"),
        (BinaryOperator::Modulus, "%"),
        (BinaryOperator::Gt, ">"),
        (BinaryOperator::Lt, "<"),
        (BinaryOperator::GtEq, ">="),
        (BinaryOperator::LtEq, "<="),
        (BinaryOperator::Eq, "="),
        (BinaryOperator::NotEq, "<>"),
        (BinaryOperator::And, "AND"),
        (BinaryOperator::Or, "OR"),
        (BinaryOperator::Like, "LIKE"),
        (BinaryOperator::Ilike, "ILIKE"),
        (BinaryOperator::NotLike, "NOT LIKE"),
    ];
    for (op, text) in cases {
        assert!(!op.to_string().is_empty());
        assert_eq!(op.to_string(), text);
    }
}
