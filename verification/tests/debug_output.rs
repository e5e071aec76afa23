use breakout::debug_output::{
    gl_debug_output, is_insignificant, DebugReport, DebugSeverity, DebugSource, DebugType,
};

#[test]
fn insignificant_ids_give_no_report() {
    for id in [131169u32, 131185, 131218, 131204] {
        assert!(is_insignificant(id));
        assert_eq!(gl_debug_output(gl::DEBUG_SOURCE_API, gl::DEBUG_TYPE_ERROR, id, gl::DEBUG_SEVERITY_HIGH), None);
    }
    assert!(!is_insignificant(0));
    assert!(!is_insignificant(131170));
}

#[test]
fn tags_are_those_of_the_graphics_interface() {
    assert_eq!(DebugSource::from_tag(gl::DEBUG_SOURCE_API), Some(DebugSource::Api));
    assert_eq!(DebugSource::from_tag(gl::DEBUG_SOURCE_WINDOW_SYSTEM), Some(DebugSource::WindowSystem));
    assert_eq!(DebugSource::from_tag(gl::DEBUG_SOURCE_SHADER_COMPILER), Some(DebugSource::ShaderCompiler));
    assert_eq!(DebugSource::from_tag(gl::DEBUG_SOURCE_THIRD_PARTY), Some(DebugSource::ThirdParty));
    assert_eq!(DebugSource::from_tag(gl::DEBUG_SOURCE_APPLICATION), Some(DebugSource::Application));
    assert_eq!(DebugSource::from_tag(gl::DEBUG_SOURCE_OTHER), Some(DebugSource::Other));
    assert_eq!(DebugType::from_tag(gl::DEBUG_TYPE_ERROR), Some(DebugType::Error));
    assert_eq!(DebugType::from_tag(gl::DEBUG_TYPE_DEPRECATED_BEHAVIOR), Some(DebugType::DeprecatedBehavior));
    assert_eq!(DebugType::from_tag(gl::DEBUG_TYPE_UNDEFINED_BEHAVIOR), Some(DebugType::UndefinedBehavior));
    assert_eq!(DebugType::from_tag(gl::DEBUG_TYPE_PORTABILITY), Some(DebugType::Portability));
    assert_eq!(DebugType::from_tag(gl::DEBUG_TYPE_PERFORMANCE), Some(DebugType::Performance));
    assert_eq!(DebugType::from_tag(gl::DEBUG_TYPE_MARKER), Some(DebugType::Marker));
    assert_eq!(DebugType::from_tag(gl::DEBUG_TYPE_PUSH_GROUP), Some(DebugType::PushGroup));
    assert_eq!(DebugType::from_tag(gl::DEBUG_TYPE_POP_GROUP), Some(DebugType::PopGroup));
    assert_eq!(DebugType::from_tag(gl::DEBUG_TYPE_OTHER), Some(DebugType::Other));
    assert_eq!(DebugSeverity::from_tag(gl::DEBUG_SEVERITY_HIGH), Some(DebugSeverity::High));
    assert_eq!(DebugSeverity::from_tag(gl::DEBUG_SEVERITY_MEDIUM), Some(DebugSeverity::Medium));
    assert_eq!(DebugSeverity::from_tag(gl::DEBUG_SEVERITY_LOW), Some(DebugSeverity::Low));
    assert_eq!(DebugSeverity::from_tag(gl::DEBUG_SEVERITY_NOTIFICATION), Some(DebugSeverity::Notification));
}

#[test]
fn unknown_tags_are_left_out_of_the_report() {
    let report = gl_debug_output(0, 1, 7, 2).unwrap();
    assert_eq!(report, DebugReport { id: 7, source: None, kind: None, severity: None });
    assert!(report.labels().is_empty());
}

#[test]
fn report_lists_labels_in_order() {
    let report = gl_debug_output(
        gl::DEBUG_SOURCE_SHADER_COMPILER,
        gl::DEBUG_TYPE_DEPRECATED_BEHAVIOR,
        42,
        gl::DEBUG_SEVERITY_NOTIFICATION,
    )
    .unwrap();
    assert_eq!(report.id, 42);
    assert_eq!(
        report.labels(),
        vec!["Source: Shader Compiler", "Type: Deprecated Behaviour", "Severity: notification"]
    );
    let partial = gl_debug_output(0, gl::DEBUG_TYPE_MARKER, 42, gl::DEBUG_SEVERITY_LOW).unwrap();
    assert_eq!(partial.labels(), vec!["Type: Marker", "Severity: low"]);
}

#[test]
fn every_label_reads_as_logged() {
    assert_eq!(DebugSource::Api.label(), "Source: API");
    assert_eq!(DebugSource::WindowSystem.label(), "Source: Window System");
    assert_eq!(DebugSource::ThirdParty.label(), "Source: Third Party");
    assert_eq!(DebugSource::Application.label(), "Source: Application");
    assert_eq!(DebugSource::Other.label(), "Source: Other");
    assert_eq!(DebugType::Error.label(), "Type: Error");
    assert_eq!(DebugType::UndefinedBehavior.label(), "Type: Undefined Behaviour");
    assert_eq!(DebugType::Portability.label(), "Type: Portability");
    assert_eq!(DebugType::Performance.label(), "Type: Performance");
    assert_eq!(DebugType::PushGroup.label(), "Type: Push Group");
    assert_eq!(DebugType::PopGroup.label(), "Type: Pop Group");
    assert_eq!(DebugType::Other.label(), "Type: Other");
    assert_eq!(DebugSeverity::High.label(), "Severity: high");
    assert_eq!(DebugSeverity::Medium.label(), "Severity: medium");
}
