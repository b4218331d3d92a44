use minijvm::descriptor::{count_arg_slots, parse_method_descriptor, parse_method_descriptor_chars};

#[test]
fn should_parse_arguments_correctly() {
    assert_eq!(parse_method_descriptor("(I)V"), ["I", "V"]);
    assert_eq!(parse_method_descriptor("(IJZ)Z"), ["I", "J", "Z", "Z"]);
    assert_eq!(parse_method_descriptor("(Ljava/lang/String;)Z"), ["java/lang/String", "Z"]);
    assert_eq!(parse_method_descriptor("(JLjava/lang/String;)V"), ["J", "java/lang/String", "V"]);
    assert_eq!(parse_method_descriptor("(Ljava/lang/String;Z)V"), ["java/lang/String", "Z", "V"]);
    assert_eq!(parse_method_descriptor("([Ljava/lang/String;)V"), ["[java/lang/String", "V"]);
    assert_eq!(parse_method_descriptor("([F)V"), ["[F", "V"]);
    assert_eq!(parse_method_descriptor("(II)Ljava/lang/Object;"), ["I", "I", "java/lang/Object"]);
}

#[test]
fn descriptor_with_array_of_ints_and_class_return() {
    assert_eq!(parse_method_descriptor("(I[C)Ljava/lang/String;"), ["I", "[C", "java/lang/String"]);
    assert_eq!(parse_method_descriptor("()V"), ["V"]);
}

#[test]
fn arg_slots_count_longs_and_doubles_twice() {
    let s: Vec<char> = "(IJDLjava/lang/String;[I)V".chars().collect();
    assert_eq!(count_arg_slots(&s), Some(7));
    let s: Vec<char> = "()V".chars().collect();
    assert_eq!(count_arg_slots(&s), Some(0));
    let s: Vec<char> = "V".chars().collect();
    assert_eq!(count_arg_slots(&s), None);
}

#[test]
fn descriptor_rejects_stray_character() {
    let s: Vec<char> = "(Q)V".chars().collect();
    assert!(parse_method_descriptor_chars(&s).is_none());
}
