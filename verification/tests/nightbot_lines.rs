use notabot::bot::filter_import_export::{
    ExportableFilter, FilterImportExport, SerializableModerationAction, SerializableModerationEscalation,
    SerializableSpamFilterType,
};

fn filter(filter_type: SerializableSpamFilterType) -> ExportableFilter {
    ExportableFilter {
        name: "f".to_string(),
        filter_type,
        enabled: true,
        escalation: SerializableModerationEscalation {
            first_offense: SerializableModerationAction::LogOnly,
            repeat_offense: SerializableModerationAction::DeleteMessage,
            offense_window_seconds: 60,
        },
        exemption_level: "Moderator".to_string(),
        silent_mode: false,
        custom_message: None,
        created_at: 0,
        usage_context: Vec::new(),
    }
}

#[test]
fn whitelisted_domains_are_escaped_in_link_lines() {
    let tool = FilterImportExport::new();
    let f = filter(SerializableSpamFilterType::LinkBlocking {
        allow_mods: true,
        whitelist: vec!["my-site.tv".to_string(), "plain".to_string()],
    });
    let lines = tool.convert_to_nightbot_equivalent(&f).unwrap();
    assert!(lines.contains(&"~/(?!.*my\\-site\\.tv).*\\.(com|net|org)/".to_string()));
    assert!(lines.contains(&"~/(?!.*plain).*\\.(com|net|org)/".to_string()));
}
