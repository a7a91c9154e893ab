//! The binary instruction encoding and the diagnostic texts.

use kut_vm::value::{KutError, KutInstruction, KutValue, KutValueKind};

#[test]
fn decode_register_form_words() {
    assert_eq!(KutInstruction::decode(0x0000_0000), Ok(KutInstruction::NoOperation));
    assert_eq!(
        KutInstruction::decode(0x0102_0304),
        Ok(KutInstruction::MovRegister { destination: 2, source: 3 })
    );
    assert_eq!(
        KutInstruction::decode(0x0201_0203),
        Ok(KutInstruction::CallMethodR { ret_position: 1, arg_count: 2, subject: 3 })
    );
    assert_eq!(
        KutInstruction::decode(0x0305_0000),
        Ok(KutInstruction::RetfMethodR { value: 5 })
    );
    assert_eq!(KutInstruction::decode(0x0407_0000), Ok(KutInstruction::PushValue1R { val1: 7 }));
    assert_eq!(
        KutInstruction::decode(0x0501_0200),
        Ok(KutInstruction::PushValue2R { val1: 1, val2: 2 })
    );
    assert_eq!(
        KutInstruction::decode(0x0601_0203),
        Ok(KutInstruction::PushValue3R { val1: 1, val2: 2, val3: 3 })
    );
    assert_eq!(
        KutInstruction::decode(0x0704_0500),
        Ok(KutInstruction::SwapValuesR { reg1: 4, reg2: 5 })
    );
}

#[test]
fn decode_immediate_form_uses_big_endian_16_bits() {
    assert_eq!(
        KutInstruction::decode(0x0802_0104),
        Ok(KutInstruction::GetLiteralR { reg: 2, literal: 0x0104 })
    );
    assert_eq!(
        KutInstruction::decode(0x0901_0002),
        Ok(KutInstruction::GetCaptureR { reg: 1, capture: 2 })
    );
    assert_eq!(
        KutInstruction::decode(0x0A01_FFFF),
        Ok(KutInstruction::SetCaptureR { reg: 1, capture: 0xFFFF })
    );
    assert_eq!(
        KutInstruction::decode(0x0B03_0001),
        Ok(KutInstruction::CaptureFunc { reg: 3, template: 1 })
    );
}

#[test]
fn decode_rejects_undefined_opcode_naming_it() {
    assert_eq!(
        KutInstruction::decode(0x0C00_0000),
        Err(KutError::UndefinedInstruction { opcode: 12 })
    );
    assert_eq!(
        KutInstruction::decode(0xFF12_3456),
        Err(KutError::UndefinedInstruction { opcode: 255 })
    );
}

#[test]
fn decode_program_stops_at_first_undefined_word() {
    let words = vec![0x0000_0000u32, 0x0802_0001, 0x0D00_0000, 0x0000_0000];
    assert_eq!(
        KutInstruction::decode_program(&words),
        Err(KutError::UndefinedInstruction { opcode: 13 })
    );
    let good = vec![0x0000_0000u32, 0x0802_0001];
    assert_eq!(
        KutInstruction::decode_program(&good),
        Ok(vec![
            KutInstruction::NoOperation,
            KutInstruction::GetLiteralR { reg: 2, literal: 1 },
        ])
    );
}

#[test]
fn type_strings_name_the_kind() {
    assert_eq!(KutValue::Nil.get_type_string(), "Nil");
    assert_eq!(KutValue::Number(0).get_type_string(), "Number");
    assert_eq!(KutValue::Reference(3).get_type_string(), "Reference");
    assert_eq!(KutValueKind::Func.name(), "Func");
}

#[test]
fn stack_underflow_message() {
    assert_eq!(
        KutError::StackUnderflow.message(),
        "KutError::StackUnderflow: try to pop from empty call stack"
    );
}

#[test]
fn capture_empty_environment_message_renders_count() {
    assert_eq!(
        KutError::CaptureEmptyEnvironment { needed_captures: 2 }.message(),
        "KutError::CaptureEmptyEnvironment: 2 captures are needed"
    );
}

#[test]
fn out_of_range_literal_message_renders_both_numbers() {
    assert_eq!(
        KutError::OutOfRangeLiteral { literal: 12, literal_count: 3 }.message(),
        "KutError::OutOfRangeLiteral: try to get literal 12 when there are 3 literals"
    );
}

#[test]
fn non_reference_capture_message_names_the_kind() {
    assert_eq!(
        KutError::NonReferenceCapture { capture: 4, capture_type: KutValueKind::List }.message(),
        "KutError::NonReferenceCapture: try to get capture 4 when its type is List instead of Reference"
    );
}

#[test]
fn messages_render_multi_digit_numbers() {
    assert_eq!(
        KutError::OutOfRangeSourceRegister { register: 255, register_count: 1000 }.message(),
        "KutError::OutOfRangeSourceRegister: try to get register 255 when there are 1000 registers"
    );
    assert_eq!(
        KutError::OutOfRangeTemplate { template: 0, template_count: 10 }.message(),
        "KutError::OutOfRangeTemplate: try to capture 0 when there are 10 templates"
    );
}
