use bake::cli::{message_label, message_suffix, task_number, CLICapabilities};
use bake::viewmodel::message::MessageType;

#[test]
fn non_interactive_hides_questions_and_reads_nothing() {
    let quiet = CLICapabilities { non_interactive: true };
    assert!(!quiet.shows(MessageType::Question));
    assert!(quiet.shows(MessageType::Error));
    assert!(!quiet.reads_input());
    let normal = CLICapabilities::default();
    assert!(!normal.non_interactive);
    assert!(normal.shows(MessageType::Question));
    assert!(normal.reads_input());
}

#[test]
fn message_labels() {
    assert_eq!(message_label(MessageType::Error), Some(" ❌ Error "));
    assert_eq!(message_label(MessageType::BakeState), Some(" ▶ Bake "));
    assert_eq!(message_label(MessageType::Warning), Some(" ⚠ Warning "));
    assert_eq!(message_label(MessageType::Normal), None);
    assert_eq!(message_label(MessageType::Question), Some(" 🯄 Question "));
    assert_eq!(message_suffix(MessageType::Question), "? ");
    assert_eq!(message_suffix(MessageType::Normal), "");
}

#[test]
fn tasks_are_numbered_from_one() {
    assert_eq!(task_number(0), "1");
    assert_eq!(task_number(9), "10");
}
