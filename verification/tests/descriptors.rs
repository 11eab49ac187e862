use rsjvm::field::{BaseType, FieldError, FieldType};
use rsjvm::method::{MethodDescriptor, MethodParsingError, ParameterDescriptor, ReturnDescriptor};

#[test]
fn boolean_success() {
    assert_eq!(
        FieldType::try_from("Z").unwrap(),
        FieldType::Base(BaseType::Boolean)
    );
}

#[test]
fn array_of_objects_success() {
    assert_eq!(
        FieldType::try_from("[Ljava/lang/String;").unwrap(),
        FieldType::Array(Box::new(FieldType::Object("java/lang/String".to_string())))
    );
}

#[test]
fn int_array_multidimensional_success() {
    assert_eq!(
        FieldType::try_from("[[[I").unwrap(),
        FieldType::Array(Box::new(FieldType::Array(Box::new(FieldType::Array(
            Box::new(FieldType::Base(BaseType::Int))
        )))))
    );
}

#[test]
fn test_valid_method_descriptor() {
    let descriptor = "(IDLjava/lang/Thread;)Ljava/lang/Object;";
    let expected = MethodDescriptor(
        ParameterDescriptor(vec![
            FieldType::Base(BaseType::Int),
            FieldType::Base(BaseType::Double),
            FieldType::Object("java/lang/Thread".to_string()),
        ]),
        ReturnDescriptor::FieldType(FieldType::Object("java/lang/Object".to_string())),
    );

    let result = MethodDescriptor::try_from(descriptor);
    assert_eq!(result.unwrap(), expected);
}

#[test]
fn test_void_return_method_descriptor() {
    let descriptor = "(I)V";
    let expected = MethodDescriptor(
        ParameterDescriptor(vec![FieldType::Base(BaseType::Int)]),
        ReturnDescriptor::VoidDescriptor,
    );

    let result = MethodDescriptor::try_from(descriptor);
    assert_eq!(result.unwrap(), expected);
}

#[test]
fn no_parameters_method_descriptor_success() {
    let descriptor = "()V";
    let expected = MethodDescriptor(
        ParameterDescriptor(vec![]),
        ReturnDescriptor::VoidDescriptor,
    );

    let result = MethodDescriptor::try_from(descriptor);
    assert_eq!(result.unwrap(), expected);
}

#[test]
fn array_parameter_method_descriptor_success() {
    let descriptor = "([I)V";
    let expected = MethodDescriptor(
        ParameterDescriptor(vec![FieldType::Array(Box::new(FieldType::Base(BaseType::Int)))]),
        ReturnDescriptor::VoidDescriptor,
    );

    let result = MethodDescriptor::try_from(descriptor);
    assert_eq!(result.unwrap(), expected);
}

#[test]
fn invalid_descriptor_missing_opening_bracket() {
    let descriptor = "IDLjava/lang/Thread;)Ljava/lang/Object;";
    let result = MethodDescriptor::try_from(descriptor);
    assert!(matches!(result, Err(MethodParsingError::NoOpeningBracket)));
}

#[test]
fn invalid_descriptor_missing_closing_bracket() {
    let descriptor = "(IDLjava/lang/Thread;Ljava/lang/Object;";
    let result = MethodDescriptor::try_from(descriptor);
    assert!(matches!(result, Err(MethodParsingError::NoClosingBracket)));
}

#[test]
fn field_descriptor_errors() {
    assert!(matches!(FieldType::try_from(""), Err(FieldError::UnexpectedEnd)));
    assert!(matches!(
        FieldType::try_from("Ljava/lang/String"),
        Err(FieldError::NoSemicolon)
    ));
    assert!(matches!(FieldType::try_from("Q"), Err(FieldError::InvalidDescriptor)));
}

#[test]
fn method_descriptor_wraps_field_errors() {
    assert!(matches!(
        MethodDescriptor::try_from("(Q)V"),
        Err(MethodParsingError::FieldError(FieldError::InvalidDescriptor))
    ));
    assert!(matches!(
        MethodDescriptor::try_from("()"),
        Err(MethodParsingError::FieldError(FieldError::UnexpectedEnd))
    ));
}

#[test]
fn descriptor_round_trip() {
    let samples = vec![
        FieldType::Base(BaseType::Byte),
        FieldType::Base(BaseType::Double),
        FieldType::Object("java/util/List".to_string()),
        FieldType::Array(Box::new(FieldType::Object("a/b".to_string()))),
        FieldType::Array(Box::new(FieldType::Array(Box::new(FieldType::Base(
            BaseType::Long,
        ))))),
    ];
    for t in samples {
        let written = t.descriptor();
        assert_eq!(FieldType::try_from(written.as_str()).unwrap(), t);
    }
}

#[test]
fn descriptor_writes_expected_text() {
    let t = FieldType::Array(Box::new(FieldType::Object("java/lang/String".to_string())));
    assert_eq!(t.descriptor(), "[Ljava/lang/String;".to_string());
}
