//! Rendering values' kinds and errors as text, for a host's diagnostics.
//! The core itself performs no output; it only builds the message strings,
//! and each one is pinned down character by character.

use vstd::prelude::*;
use vstd::string::StringExecFns;

use crate::value::{KutError, KutValue, KutValueKind};

verus! {

/// The decimal digit character for one digit value.
pub open spec fn digit_char(d: nat) -> char {
    if d == 0 {
        '0'
    } else if d == 1 {
        '1'
    } else if d == 2 {
        '2'
    } else if d == 3 {
        '3'
    } else if d == 4 {
        '4'
    } else if d == 5 {
        '5'
    } else if d == 6 {
        '6'
    } else if d == 7 {
        '7'
    } else if d == 8 {
        '8'
    } else {
        '9'
    }
}

/// The decimal rendering of a number: most significant digit first, no
/// leading zeroes (a lone zero for zero).
pub open spec fn dec_digits(n: nat) -> Seq<char>
    decreases n,
{
    if n < 10 {
        seq![digit_char(n)]
    } else {
        dec_digits(n / 10).push(digit_char(n % 10))
    }
}

/// The text for one decimal digit.
fn digit_str(d: u64) -> (r: &'static str)
    requires
        d < 10,
    ensures
        r@ == seq![digit_char(d as nat)],
{
    proof {
        reveal_strlit("0");
        reveal_strlit("1");
        reveal_strlit("2");
        reveal_strlit("3");
        reveal_strlit("4");
        reveal_strlit("5");
        reveal_strlit("6");
        reveal_strlit("7");
        reveal_strlit("8");
        reveal_strlit("9");
    }
    let r = if d == 0 {
        "0"
    } else if d == 1 {
        "1"
    } else if d == 2 {
        "2"
    } else if d == 3 {
        "3"
    } else if d == 4 {
        "4"
    } else if d == 5 {
        "5"
    } else if d == 6 {
        "6"
    } else if d == 7 {
        "7"
    } else if d == 8 {
        "8"
    } else {
        "9"
    };
    proof {
        assert(r@ =~= seq![digit_char(d as nat)]);
    }
    r
}

/// Append the decimal rendering of `n`.
fn push_u64(s: &mut String, n: u64)
    ensures
        final(s)@ == old(s)@ + dec_digits(n as nat),
    decreases n,
{
    if n < 10 {
        s.append(digit_str(n));
        proof {
            assert(final(s)@ =~= old(s)@ + dec_digits(n as nat));
        }
    } else {
        push_u64(s, n / 10);
        s.append(digit_str(n % 10));
        proof {
            assert(final(s)@ =~= old(s)@ + dec_digits(n as nat));
        }
    }
}

impl KutValueKind {
    /// The kind's name.
    pub open spec fn spec_name(self) -> Seq<char> {
        match self {
            KutValueKind::Nil => "Nil"@,
            KutValueKind::Undefined => "Undefined"@,
            KutValueKind::Number => "Number"@,
            KutValueKind::String => "String"@,
            KutValueKind::List => "List"@,
            KutValueKind::Func => "Func"@,
            KutValueKind::Reference => "Reference"@,
        }
    }

    /// The kind's name.
    pub fn name(&self) -> (r: &'static str)
        ensures
            r@ == self.spec_name(),
    {
        match self {
            KutValueKind::Nil => "Nil",
            KutValueKind::Undefined => "Undefined",
            KutValueKind::Number => "Number",
            KutValueKind::String => "String",
            KutValueKind::List => "List",
            KutValueKind::Func => "Func",
            KutValueKind::Reference => "Reference",
        }
    }
}

impl KutValue {
    /// The name of this value's kind.
    pub fn get_type_string(&self) -> (r: String)
        ensures
            r@ == self.spec_kind().spec_name(),
    {
        self.kind().name().to_owned()
    }
}

impl KutError {
    /// The diagnostic text of this error.
    pub open spec fn spec_message(self) -> Seq<char> {
        match self {
            KutError::StackUnderflow => {
                "KutError::StackUnderflow: try to pop from empty call stack"@
            },
            KutError::CaptureEmptyEnvironment { needed_captures } => {
                "KutError::CaptureEmptyEnvironment: "@ + dec_digits(needed_captures as nat)
                    + " captures are needed"@
            },
            KutError::NonReferenceCapture { capture, capture_type } => {
                "KutError::NonReferenceCapture: try to get capture "@ + dec_digits(capture as nat)
                    + " when its type is "@ + capture_type.spec_name()
                    + " instead of Reference"@
            },
            KutError::OutOfRangeTemplate { template, template_count } => {
                "KutError::OutOfRangeTemplate: try to capture "@ + dec_digits(template as nat)
                    + " when there are "@ + dec_digits(template_count as nat) + " templates"@
            },
            KutError::OutOfRangeLiteral { literal, literal_count } => {
                "KutError::OutOfRangeLiteral: try to get literal "@ + dec_digits(literal as nat)
                    + " when there are "@ + dec_digits(literal_count as nat) + " literals"@
            },
            KutError::OutOfRangeDestinationCapture { capture, capture_count } => {
                "KutError::OutOfRangeDestinationCapture: try to set to capture "@ + dec_digits(
                    capture as nat,
                ) + " when there are "@ + dec_digits(capture_count as nat) + " captures"@
            },
            KutError::OutOfRangeSourceCapture { capture, capture_count } => {
                "KutError::OutOfRangeSourceCapture: try to get capture "@ + dec_digits(
                    capture as nat,
                ) + " when there are "@ + dec_digits(capture_count as nat) + " captured captures"@
            },
            KutError::OutOfRangeDestinationRegister { register, register_count } => {
                "KutError::OutOfRangeDestinationRegister: try to set to register "@ + dec_digits(
                    register as nat,
                ) + " when there are "@ + dec_digits(register_count as nat) + " registers"@
            },
            KutError::OutOfRangeSourceRegister { register, register_count } => {
                "KutError::OutOfRangeSourceRegister: try to get register "@ + dec_digits(
                    register as nat,
                ) + " when there are "@ + dec_digits(register_count as nat) + " registers"@
            },
            KutError::OutOfRangeSwapRegister { register, register_count } => {
                "KutError::OutOfRangeSwapRegister: try to get and set register "@ + dec_digits(
                    register as nat,
                ) + " when there are "@ + dec_digits(register_count as nat) + " registers"@
            },
            KutError::NonFuncSubject { register, subject_type } => {
                "KutError::NonFuncSubject: try to call register "@ + dec_digits(register as nat)
                    + " when its type is "@ + subject_type.spec_name() + " instead of Func"@
            },
            KutError::UndefinedInstruction { opcode } => {
                "KutError::UndefinedInstruction: opcode "@ + dec_digits(opcode as nat)
                    + " is not a defined instruction"@
            },
            KutError::StepLimitReached { limit } => {
                "KutError::StepLimitReached: the step budget of "@ + dec_digits(limit as nat)
                    + " was spent before the run finished"@
            },
        }
    }

    /// Build the diagnostic text of this error.
    pub fn message(&self) -> (r: String)
        ensures
            r@ == self.spec_message(),
    {
        let mut s = String::new();
        match self {
            KutError::StackUnderflow => {
                s.append("KutError::StackUnderflow: try to pop from empty call stack");
            },
            KutError::CaptureEmptyEnvironment { needed_captures } => {
                s.append("KutError::CaptureEmptyEnvironment: ");
                push_u64(&mut s, *needed_captures as u64);
                s.append(" captures are needed");
            },
            KutError::NonReferenceCapture { capture, capture_type } => {
                s.append("KutError::NonReferenceCapture: try to get capture ");
                push_u64(&mut s, *capture as u64);
                s.append(" when its type is ");
                s.append(capture_type.name());
                s.append(" instead of Reference");
            },
            KutError::OutOfRangeTemplate { template, template_count } => {
                s.append("KutError::OutOfRangeTemplate: try to capture ");
                push_u64(&mut s, *template as u64);
                s.append(" when there are ");
                push_u64(&mut s, *template_count as u64);
                s.append(" templates");
            },
            KutError::OutOfRangeLiteral { literal, literal_count } => {
                s.append("KutError::OutOfRangeLiteral: try to get literal ");
                push_u64(&mut s, *literal as u64);
                s.append(" when there are ");
                push_u64(&mut s, *literal_count as u64);
                s.append(" literals");
            },
            KutError::OutOfRangeDestinationCapture { capture, capture_count } => {
                s.append("KutError::OutOfRangeDestinationCapture: try to set to capture ");
                push_u64(&mut s, *capture as u64);
                s.append(" when there are ");
                push_u64(&mut s, *capture_count as u64);
                s.append(" captures");
            },
            KutError::OutOfRangeSourceCapture { capture, capture_count } => {
                s.append("KutError::OutOfRangeSourceCapture: try to get capture ");
                push_u64(&mut s, *capture as u64);
                s.append(" when there are ");
                push_u64(&mut s, *capture_count as u64);
                s.append(" captured captures");
            },
            KutError::OutOfRangeDestinationRegister { register, register_count } => {
                s.append("KutError::OutOfRangeDestinationRegister: try to set to register ");
                push_u64(&mut s, *register as u64);
                s.append(" when there are ");
                push_u64(&mut s, *register_count as u64);
                s.append(" registers");
            },
            KutError::OutOfRangeSourceRegister { register, register_count } => {
                s.append("KutError::OutOfRangeSourceRegister: try to get register ");
                push_u64(&mut s, *register as u64);
                s.append(" when there are ");
                push_u64(&mut s, *register_count as u64);
                s.append(" registers");
            },
            KutError::OutOfRangeSwapRegister { register, register_count } => {
                s.append("KutError::OutOfRangeSwapRegister: try to get and set register ");
                push_u64(&mut s, *register as u64);
                s.append(" when there are ");
                push_u64(&mut s, *register_count as u64);
                s.append(" registers");
            },
            KutError::NonFuncSubject { register, subject_type } => {
                s.append("KutError::NonFuncSubject: try to call register ");
                push_u64(&mut s, *register as u64);
                s.append(" when its type is ");
                s.append(subject_type.name());
                s.append(" instead of Func");
            },
            KutError::UndefinedInstruction { opcode } => {
                s.append("KutError::UndefinedInstruction: opcode ");
                push_u64(&mut s, *opcode as u64);
                s.append(" is not a defined instruction");
            },
            KutError::StepLimitReached { limit } => {
                s.append("KutError::StepLimitReached: the step budget of ");
                push_u64(&mut s, *limit);
                s.append(" was spent before the run finished");
            },
        }
        proof {
            assert(s@ =~= self.spec_message());
        }
        s
    }
}

} // verus!
