use a2a_rs::domain::{
    DeleteTaskPushNotificationConfigParams, ListTasksParams, Message, MessageSendParams, PushNotificationConfig,
    TaskIdParams, TaskPushNotificationConfig, TaskQueryParams,
};
use a2a_rs::guards::RefusalCode;
use a2a_rs::methods::{
    CancelTaskStation, DeletePushNotificationConfigStation, EmptyParams, GetAuthenticatedExtendedCardStation,
    GetPushNotificationConfigStation, GetTaskStation, ListPushNotificationConfigsStation, ListTasksStation,
    SendMessageStation, SendStreamingMessageStation, SetPushNotificationConfigStation, Station, StationRegistry,
    TaskResubscribeStation,
};

#[test]
fn test_complete_method_coverage() {
    let spec_methods = vec![
        "message/send",
        "message/stream",
        "tasks/get",
        "tasks/list",
        "tasks/cancel",
        "tasks/resubscribe",
        "tasks/pushNotificationConfig/set",
        "tasks/pushNotificationConfig/get",
        "tasks/pushNotificationConfig/list",
        "tasks/pushNotificationConfig/delete",
        "agent/getAuthenticatedExtendedCard",
    ];
    let implemented_methods = StationRegistry::all_methods();
    for method in &spec_methods {
        assert!(implemented_methods.contains(method), "Method {} from spec is not implemented", method);
    }
    for method in &implemented_methods {
        assert!(spec_methods.contains(method), "Method {} is implemented but not in spec", method);
    }
    assert_eq!(spec_methods.len(), implemented_methods.len());
}

#[test]
fn test_all_stations_have_validation() {
    assert!(SendMessageStation::validate(&MessageSendParams {
        message: Message::user_text("test".into(), "id".into()),
        configuration: None,
        metadata: None,
    })
    .is_ok());
    assert!(GetTaskStation::validate(&TaskQueryParams { id: "test-id".into(), history_length: Some(10), metadata: None }).is_ok());
    assert!(ListTasksStation::validate(&ListTasksParams {
        context_id: None,
        status: None,
        page_size: Some(50),
        page_token: None,
        history_length: None,
        include_artifacts: None,
        last_updated_after: None,
        metadata: None,
    })
    .is_ok());
    assert!(CancelTaskStation::validate(&TaskIdParams { id: "test-id".into(), metadata: None }).is_ok());
    assert!(GetAuthenticatedExtendedCardStation::validate(&EmptyParams {}).is_ok());
}

#[test]
fn test_station_descriptions_are_nonempty() {
    for method in StationRegistry::all_methods() {
        let desc = StationRegistry::description(method).expect(&format!("Method {} must have description", method));
        assert!(!desc.is_empty(), "Description for {} must not be empty", method);
    }
}

#[test]
fn test_method_name_constants() {
    assert_eq!(SendMessageStation::METHOD_NAME, "message/send");
    assert_eq!(SendStreamingMessageStation::METHOD_NAME, "message/stream");
    assert_eq!(GetTaskStation::METHOD_NAME, "tasks/get");
    assert_eq!(ListTasksStation::METHOD_NAME, "tasks/list");
    assert_eq!(CancelTaskStation::METHOD_NAME, "tasks/cancel");
    assert_eq!(TaskResubscribeStation::METHOD_NAME, "tasks/resubscribe");
    assert_eq!(SetPushNotificationConfigStation::METHOD_NAME, "tasks/pushNotificationConfig/set");
    assert_eq!(GetPushNotificationConfigStation::METHOD_NAME, "tasks/pushNotificationConfig/get");
    assert_eq!(ListPushNotificationConfigsStation::METHOD_NAME, "tasks/pushNotificationConfig/list");
    assert_eq!(DeletePushNotificationConfigStation::METHOD_NAME, "tasks/pushNotificationConfig/delete");
    assert_eq!(GetAuthenticatedExtendedCardStation::METHOD_NAME, "agent/getAuthenticatedExtendedCard");
}

#[test]
fn refusals_of_stations() {
    let mut empty = Message::user_text("x".into(), "m-1".into());
    empty.parts.clear();
    let err = SendStreamingMessageStation::validate(&MessageSendParams { message: empty, configuration: None, metadata: None })
        .unwrap_err();
    assert_eq!(err.code, RefusalCode::MissingRequiredField);
    assert_eq!(err.input_hash, "m-1");

    let err = GetTaskStation::validate(&TaskQueryParams { id: "t".into(), history_length: Some(1001), metadata: None })
        .unwrap_err();
    assert_eq!(err.reason, "History length 1001 exceeds maximum of 1000");

    let err = TaskResubscribeStation::validate(&TaskIdParams { id: "".into(), metadata: None }).unwrap_err();
    assert_eq!(err.violated_guard, "CancelTaskStation");

    let cfg = |url: &str| TaskPushNotificationConfig {
        task_id: "t".into(),
        push_notification_config: PushNotificationConfig { id: None, url: url.into(), token: None },
    };
    assert!(SetPushNotificationConfigStation::validate(&cfg("https://hook")).is_ok());
    assert_eq!(SetPushNotificationConfigStation::validate(&cfg("ftp://x")).unwrap_err().code, RefusalCode::InvalidFormat);
    assert_eq!(
        SetPushNotificationConfigStation::validate(&cfg("")).unwrap_err().reason,
        "Webhook URL must not be empty"
    );

    let err = DeletePushNotificationConfigStation::validate(&DeleteTaskPushNotificationConfigParams {
        id: "t".into(),
        push_notification_config_id: "".into(),
        metadata: None,
    })
    .unwrap_err();
    assert_eq!(err.reason, "Push notification config ID must not be empty");

    let err = ListTasksStation::validate(&ListTasksParams {
        context_id: None,
        status: None,
        page_size: Some(0),
        page_token: None,
        history_length: None,
        include_artifacts: None,
        last_updated_after: None,
        metadata: None,
    })
    .unwrap_err();
    assert_eq!(err.reason, "Page size 0 must be between 1 and 100");
}

#[test]
fn registry_lookup() {
    assert!(StationRegistry::is_supported("tasks/get"));
    assert!(!StationRegistry::is_supported("tasks/delete"));
    assert_eq!(StationRegistry::description("tasks/cancel"), Some("Request cancellation of a running task"));
    assert_eq!(StationRegistry::description("nope"), None);
}
