use native::tasks::{
    format_systemtime, task_details_message, ActionInfo, DefinitionInfo, Items, SystemTime,
    TaskDetails, TriggerInfo,
};

fn time(year: u16, month: u16, day: u16, hour: u16, minute: u16, second: u16) -> SystemTime {
    SystemTime { year, month, day, hour, minute, second }
}

#[test]
fn systemtime_is_zero_padded() {
    assert_eq!(format_systemtime(&time(2024, 3, 7, 9, 5, 0)), "2024-03-07 09:05:00");
    assert_eq!(format_systemtime(&time(0, 0, 0, 0, 0, 0)), "0000-00-00 00:00:00");
    assert_eq!(format_systemtime(&time(12345, 12, 31, 23, 59, 59)), "12345-12-31 23:59:59");
}

#[test]
fn details_of_a_readable_task() {
    let d = TaskDetails {
        name: Some("Backup".to_string()),
        location: Some("\\Tools\\Backup".to_string()),
        enabled: Some(true),
        definition: Ok(DefinitionInfo {
            registration: Ok((Some("me".to_string()), None)),
            triggers: Items::Counted(
                2,
                vec![
                    Some(TriggerInfo { kind: Some(2), start: Some("2024-01-01T10:00:00".to_string()), end: None }),
                    None,
                ],
            ),
            actions: Items::Counted(
                2,
                vec![
                    Some(ActionInfo::Exec {
                        program: "backup.exe".to_string(),
                        arguments: "/all".to_string(),
                        working_dir: "".to_string(),
                    }),
                    Some(ActionInfo::Other),
                ],
            ),
        }),
        next_run: time(2024, 1, 2, 10, 0, 0),
        last_result: Ok(("The operation completed successfully.\r\n".to_string(), 0)),
    };
    let expected = "Name:            Backup\n\
Location:        \\Tools\\Backup\n\
Status:          Enabled\n\
Author:          me\n\
Description:     N/A\n\
Trigger count:   2\n \
Trigger type:   Daily\n \
StartBoundary:  2024-01-01T10:00:00\n \
EndBoundary:    N/A\n\
Unable to get item:   2\n\
Action count:    2\n \
Exec Action:\n   Program:      backup.exe\n   Arguments:    /all\n   WorkingDir:   \n\
Non-exec action (unsupported)\n\
Next run:        2024-01-02 10:00:00\n\
Last result:     The operation completed successfully. (0x00000000)\n";
    assert_eq!(task_details_message(&d), expected);
}

#[test]
fn details_when_reading_fails() {
    let d = TaskDetails {
        name: None,
        location: None,
        enabled: None,
        definition: Err("denied".to_string()),
        next_run: time(1899, 12, 30, 0, 0, 0),
        last_result: Err("gone".to_string()),
    };
    let expected = "Name:            <unknown>\n\
Location:        <unknown>\n\
Status:          <unknown>\n\
Unable to query task definition (denied)\n\
Next run:        1899-12-30 00:00:00\n\
Last result:     gone\n";
    assert_eq!(task_details_message(&d), expected);
}

#[test]
fn details_with_unreadable_parts() {
    let d = TaskDetails {
        name: Some("T".to_string()),
        location: Some("\\T".to_string()),
        enabled: Some(false),
        definition: Ok(DefinitionInfo {
            registration: Err("no info".to_string()),
            triggers: Items::Unavailable("e1".to_string()),
            actions: Items::CountFailed("e2".to_string()),
        }),
        next_run: time(2000, 1, 1, 0, 0, 0),
        last_result: Ok(("Access is denied. ".to_string(), -2147024891)),
    };
    let expected = "Name:            T\n\
Location:        \\T\n\
Status:          Disabled\n\
Unable to query task registrationinfo (no info)\n\
Unable to query triggers:   e1\n\
Actions count:   e2\n\
Next run:        2000-01-01 00:00:00\n\
Last result:     Access is denied. (0x80070005)\n";
    assert_eq!(task_details_message(&d), expected);
}

#[test]
fn details_of_queries_that_fail_on_items() {
    let d = TaskDetails {
        name: Some("T".to_string()),
        location: Some("\\T".to_string()),
        enabled: Some(true),
        definition: Ok(DefinitionInfo {
            registration: Ok((None, Some("d".to_string()))),
            triggers: Items::CountFailed("c".to_string()),
            actions: Items::Unavailable("u".to_string()),
        }),
        next_run: time(2000, 1, 1, 0, 0, 0),
        last_result: Ok(("".to_string(), 267011)),
    };
    let expected = "Name:            T\n\
Location:        \\T\n\
Status:          Enabled\n\
Author:          N/A\n\
Description:     d\n\
Trigger count:   c\n\
Unable to query actions (u)\n\
Next run:        2000-01-01 00:00:00\n\
Last result:      (0x00041303)\n";
    assert_eq!(task_details_message(&d), expected);
}

#[test]
fn unreadable_trigger_type_is_unknown() {
    let d = TaskDetails {
        name: Some("T".to_string()),
        location: Some("\\T".to_string()),
        enabled: Some(true),
        definition: Ok(DefinitionInfo {
            registration: Ok((None, None)),
            triggers: Items::Counted(1, vec![Some(TriggerInfo { kind: None, start: None, end: None })]),
            actions: Items::Counted(0, vec![]),
        }),
        next_run: time(2000, 1, 1, 0, 0, 0),
        last_result: Err("x".to_string()),
    };
    let expected = "Name:            T\n\
Location:        \\T\n\
Status:          Enabled\n\
Author:          N/A\n\
Description:     N/A\n\
Trigger count:   1\n \
Trigger type:   Unknown\n \
StartBoundary:  N/A\n \
EndBoundary:    N/A\n\
Action count:    0\n\
Next run:        2000-01-01 00:00:00\n\
Last result:     x\n";
    assert_eq!(task_details_message(&d), expected);
}
