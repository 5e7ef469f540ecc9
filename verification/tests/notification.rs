use due::notification::check_title;

#[test]
fn send_with_empty_title_returns_error() {
    let result = check_title("");

    assert!(result.is_err(), "空标题应该返回错误");
}

#[test]
fn blank_title_is_refused_with_message() {
    assert_eq!(check_title(" \t\u{3000} "), Err("通知标题不能为空".to_string()));
}

#[test]
fn nonblank_title_is_accepted() {
    assert_eq!(check_title("测试标题"), Ok(()));
    assert_eq!(check_title("  喝水 "), Ok(()));
}
