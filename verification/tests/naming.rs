use sbe_codegen::naming::{camel_name, constant_name, member_name, snake_name};

#[test]
fn snake_name_splits_words() {
    assert_eq!(snake_name("serialNumber"), "serial_number");
}

#[test]
fn camel_name_joins_words() {
    assert_eq!(camel_name("groupSizeEncoding"), "GroupSizeEncoding");
    assert_eq!(camel_name("message_header"), "MessageHeader");
}

#[test]
fn constant_names_are_upper_case() {
    assert_eq!(constant_name("Car"), "CAR");
    assert_eq!(constant_name("messageHeader"), "MESSAGE_HEADER");
    assert_eq!(member_name("sportsPack"), "SPORTS_PACK");
}
