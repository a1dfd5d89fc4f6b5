use rlox::interpreter::{Calculation, Value};
use rlox::run;
use rlox::utils::Diagnostic;

fn calculator(work: Calculation) -> u32 {
    match work {
        Calculation::Read(spelling) => spelling.parse::<f32>().unwrap_or(f32::NAN).to_bits(),
        Calculation::Add(a, b) => (f32::from_bits(a) + f32::from_bits(b)).to_bits(),
        Calculation::Subtract(a, b) => (f32::from_bits(a) - f32::from_bits(b)).to_bits(),
        Calculation::Multiply(a, b) => (f32::from_bits(a) * f32::from_bits(b)).to_bits(),
        Calculation::Divide(a, b) => (f32::from_bits(a) / f32::from_bits(b)).to_bits(),
    }
}

struct Ran {
    output: Vec<Value>,
    had_err: bool,
    had_runtime_err: bool,
    diagnostics: Vec<Diagnostic>,
}

fn ran(source: &str) -> Ran {
    let mut had_err = false;
    let mut had_runtime_err = false;
    let mut diagnostics = Vec::new();
    let output = run(
        String::from(source),
        &mut had_err,
        &mut had_runtime_err,
        &mut diagnostics,
        calculator,
    );
    Ran { output, had_err, had_runtime_err, diagnostics }
}

#[test]
fn program_without_errors_runs_to_its_output() {
    let ran = ran("print 1 + 2;\nprint \"a\" + \"b\";\n// done\nprint !nil;");
    assert!(!ran.had_err);
    assert!(!ran.had_runtime_err);
    assert!(ran.diagnostics.is_empty());
    assert_eq!(
        ran.output,
        vec![
            Value::Number(3.0f32.to_bits()),
            Value::String(String::from("ab")),
            Value::Boolean(true)
        ]
    );
}

#[test]
fn lexical_error_keeps_the_program_from_running() {
    let ran = ran("print 1;\nprint @;");
    assert!(ran.had_err);
    assert!(!ran.had_runtime_err);
    assert!(ran.output.is_empty());
    assert_eq!(ran.diagnostics[0].message, "unexpected character.");
    assert_eq!(ran.diagnostics[0].line, 2);
}

#[test]
fn syntax_error_keeps_the_program_from_running() {
    let ran = ran("print 1;\nprint 2");
    assert!(ran.had_err);
    assert!(!ran.had_runtime_err);
    assert!(ran.output.is_empty());
    assert_eq!(ran.diagnostics.len(), 1);
    assert_eq!(ran.diagnostics[0].message, "Expect ';' after value.");
    assert_eq!(ran.diagnostics[0].location, " at end");
    assert_eq!(ran.diagnostics[0].line, 2);
}

#[test]
fn lexical_errors_come_before_syntax_errors() {
    let ran = ran("print (1;\n@");
    assert!(ran.had_err);
    assert!(ran.diagnostics.len() >= 2);
    assert_eq!(ran.diagnostics[0].message, "unexpected character.");
    assert_eq!(ran.diagnostics[1].message, "Expect ')' after expression.");
}

#[test]
fn runtime_error_raises_its_own_flag() {
    let ran = ran("print 1;\nprint -\"a\";\nprint 2;");
    assert!(!ran.had_err);
    assert!(ran.had_runtime_err);
    assert_eq!(ran.output, vec![Value::Number(1.0f32.to_bits())]);
    assert_eq!(ran.diagnostics.len(), 1);
    assert_eq!(ran.diagnostics[0].message, "Operand must be a number.");
    assert_eq!(ran.diagnostics[0].line, 2);
}

#[test]
fn raised_flag_keeps_a_sound_program_from_running() {
    let mut had_err = true;
    let mut had_runtime_err = false;
    let mut diagnostics = Vec::new();
    let output = run(
        String::from("print 1;"),
        &mut had_err,
        &mut had_runtime_err,
        &mut diagnostics,
        calculator,
    );
    assert!(had_err);
    assert!(!had_runtime_err);
    assert!(output.is_empty());
    assert!(diagnostics.is_empty());
}

#[test]
fn running_twice_gives_the_same_output() {
    let source = "print 1 / 3; print 2 * (3 + 4) == 14; print \"x\" + \"y\";";
    let first = ran(source);
    let second = ran(source);
    assert_eq!(first.output, second.output);
    assert_eq!(first.output.len(), 3);
    assert_eq!(first.had_err, second.had_err);
    assert_eq!(first.had_runtime_err, second.had_runtime_err);
}
