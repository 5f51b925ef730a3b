use heatsolve::command::{parse_count, parse_instruction, CommandLine, Instruction};

fn chars(s: &str) -> Vec<char> {
    s.chars().collect()
}

#[test]
fn start_and_stop() {
    assert_eq!(parse_instruction(&chars("start")), Instruction::Start);
    assert_eq!(parse_instruction(&chars("stop")), Instruction::Stop);
    assert_eq!(parse_instruction(&chars("start now")), Instruction::Start);
    assert_eq!(parse_instruction(&chars(" start")), Instruction::Ignored);
}

#[test]
fn set_commands_hand_on_their_value() {
    assert_eq!(parse_instruction(&chars("set max_T 350.5")), Instruction::SetMaxT(chars("350.5")));
    assert_eq!(parse_instruction(&chars("set kappa 0.25 extra")), Instruction::SetKappa(chars("0.25")));
    assert_eq!(parse_instruction(&chars("set iter_quant 40")), Instruction::SetIterations(40));
}

#[test]
fn malformed_commands_are_ignored() {
    assert_eq!(parse_instruction(&chars("")), Instruction::Ignored);
    assert_eq!(parse_instruction(&chars("set")), Instruction::Ignored);
    assert_eq!(parse_instruction(&chars("set kappa")), Instruction::Ignored);
    assert_eq!(parse_instruction(&chars("set  kappa 1")), Instruction::Ignored);
    assert_eq!(parse_instruction(&chars("set speed 3")), Instruction::Ignored);
    assert_eq!(parse_instruction(&chars("set iter_quant -3")), Instruction::Ignored);
    assert_eq!(parse_instruction(&chars("go")), Instruction::Ignored);
}

#[test]
fn counts_read_as_rust_reads_them() {
    for s in ["0", "7", "+12", "4294967295", "4294967296", "", "+", "1a", "-1", "99999999999"] {
        assert_eq!(parse_count(&chars(s)), s.parse::<u32>().ok(), "reading {:?}", s);
    }
}

#[test]
fn command_line_collects_keys() {
    let mut line = CommandLine::new();
    line.push_text(&chars("set"));
    line.push_space();
    line.push_text(&chars("iter_quant"));
    line.push_space();
    line.push_text(&chars("5"));
    assert_eq!(line.text(), &chars("set iter_quant 5"));
    assert_eq!(line.enter(), Instruction::SetIterations(5));
    assert!(line.text().is_empty());
    line.push_text(&chars("stop"));
    line.clear();
    assert_eq!(line.enter(), Instruction::Ignored);
}
