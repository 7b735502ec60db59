use sqlx_describe::describe::{
    any_type_info, AnyParamInfo, AnyTypeInfo, Column, Describe, EnumDomain, NormalizeError,
    ParamInfo, TypeInfo,
};
use std::sync::Arc;

fn column(ordinal: usize, name: &str, oid: u32, ty: &str) -> Column {
    Column { ordinal, name: name.to_string(), type_info: TypeInfo { oid, name: ty.to_string() } }
}

fn sample(parameters: Option<ParamInfo>) -> Describe {
    Describe {
        columns: vec![column(0, "id", 23, "int4"), column(1, "label", 25, "text")],
        parameters,
        nullable: vec![Some(false), None],
        known_enum_tys: vec![EnumDomain {
            name: "status".to_string(),
            variants: Arc::new(vec!["active".to_string()]),
        }],
    }
}

#[test]
fn accessors_read_the_description() {
    let d = sample(Some(ParamInfo::CountOnly(2)));
    assert_eq!(d.columns().len(), 2);
    assert_eq!(d.column(1).name, "label");
    assert!(matches!(d.parameters(), Some(ParamInfo::CountOnly(2))));
    assert_eq!(d.nullable(0), Some(false));
    assert_eq!(d.nullable(1), None);
    assert_eq!(d.nullable(2), None);
    assert_eq!(d.known_enum_ty(&"status".to_string()), Some(0));
    assert_eq!(d.known_enum_ty(&"other".to_string()), None);
}

#[test]
fn no_information_differs_from_count_zero() {
    assert!(sample(None).parameters().is_none());
    assert!(matches!(sample(Some(ParamInfo::CountOnly(0))).parameters(), Some(ParamInfo::CountOnly(0))));
}

#[test]
fn normalizes_a_representable_description() {
    let d = sample(Some(ParamInfo::Typed(vec![
        TypeInfo { oid: 20, name: "int8".to_string() },
        TypeInfo { oid: 17, name: "bytea".to_string() },
    ])));
    let a = d.try_into_any().ok().unwrap();
    assert_eq!(a.columns.len(), 2);
    assert_eq!(a.columns[0].type_info, AnyTypeInfo::Integer);
    assert_eq!(a.columns[1].name, "label");
    assert_eq!(a.columns[1].type_info, AnyTypeInfo::Text);
    assert!(matches!(a.parameters.as_ref(), Some(AnyParamInfo::Typed(v)) if v == &vec![AnyTypeInfo::BigInt, AnyTypeInfo::Blob]));
    assert_eq!(a.nullable, vec![Some(false), None]);
}

#[test]
fn count_only_and_absent_pass_through_normalization() {
    let a = sample(Some(ParamInfo::CountOnly(3))).try_into_any().ok().unwrap();
    assert!(matches!(a.parameters, Some(AnyParamInfo::CountOnly(3))));
    let a = sample(None).try_into_any().ok().unwrap();
    assert!(a.parameters.is_none());
}

#[test]
fn unrepresentable_column_fails_whole_normalization() {
    let mut d = sample(Some(ParamInfo::Typed(vec![TypeInfo { oid: 600, name: "point".to_string() }])));
    d.columns.push(column(2, "where", 600, "point"));
    d.columns.push(column(3, "shape", 601, "lseg"));
    match d.try_into_any() {
        Err(NormalizeError::UnrepresentableColumnType { position, type_info }) => {
            assert_eq!(position, 2);
            assert_eq!(type_info.name, "point");
        }
        _ => panic!("expected an unrepresentable column"),
    }
}

#[test]
fn unrepresentable_parameter_is_named() {
    let d = sample(Some(ParamInfo::Typed(vec![
        TypeInfo { oid: 16, name: "bool".to_string() },
        TypeInfo { oid: 70001, name: "status".to_string() },
    ])));
    match d.try_into_any() {
        Err(NormalizeError::UnrepresentableParameterType { position, type_info }) => {
            assert_eq!(position, 1);
            assert_eq!(type_info.oid, 70001);
        }
        _ => panic!("expected an unrepresentable parameter"),
    }
}

#[test]
fn agnostic_catalog_lookup() {
    let t = |oid: u32| TypeInfo { oid, name: String::new() };
    assert_eq!(any_type_info(&t(16)), Some(AnyTypeInfo::Bool));
    assert_eq!(any_type_info(&t(21)), Some(AnyTypeInfo::SmallInt));
    assert_eq!(any_type_info(&t(1043)), Some(AnyTypeInfo::Text));
    assert_eq!(any_type_info(&t(600)), None);
}
