use asm_colorize::category::{category_of, classify, Color, SyntaxCategory};
use asm_colorize::render::{colorize, finish_step, render_step, step_length, Renderer};
use asm_colorize::settings::{Args, Settings, SettingsError};
use asm_colorize::sink::Output;
use iced_x86::{FormatterOutput, FormatterTextKind};

fn line_text(line: &[(String, Color)]) -> String {
    line.iter().map(|(t, _)| t.as_str()).collect()
}

fn color_of_text(line: &[(String, Color)], text: &str) -> Vec<Color> {
    line.iter().filter(|(t, _)| t == text).map(|(_, c)| *c).collect()
}

#[test]
fn classify_matches_table() {
    assert_eq!(classify(SyntaxCategory::Directive), Color::BrightYellow);
    assert_eq!(classify(SyntaxCategory::Keyword), Color::BrightYellow);
    assert_eq!(classify(SyntaxCategory::Prefix), Color::BrightRed);
    assert_eq!(classify(SyntaxCategory::Mnemonic), Color::BrightRed);
    assert_eq!(classify(SyntaxCategory::Register), Color::BrightBlue);
    assert_eq!(classify(SyntaxCategory::Number), Color::BrightCyan);
    assert_eq!(classify(SyntaxCategory::LabelAddress), Color::BrightGreen);
    assert_eq!(classify(SyntaxCategory::FunctionAddress), Color::BrightGreen);
    assert_eq!(classify(SyntaxCategory::Text), Color::Green);
    assert_eq!(classify(SyntaxCategory::Operator), Color::BrightMagenta);
    assert_eq!(classify(SyntaxCategory::Other), Color::White);
}

#[test]
fn sink_clear_forgets_earlier_fragments() {
    let mut sink = Output::new();
    assert!(sink.drain().is_empty());
    sink.append(String::from("push"), SyntaxCategory::Mnemonic);
    sink.append(String::from("rbp"), SyntaxCategory::Register);
    assert_eq!(sink.drain().len(), 2);
    sink.clear();
    assert!(sink.drain().is_empty());
    sink.append(String::from("ret"), SyntaxCategory::Mnemonic);
    assert_eq!(
        sink.drain().clone(),
        vec![(String::from("ret"), SyntaxCategory::Mnemonic)]
    );
}

#[test]
fn sink_keeps_fragments_after_drain() {
    let mut sink = Output::new();
    sink.append(String::from("a"), SyntaxCategory::Text);
    sink.append(String::from("1"), SyntaxCategory::Number);
    let first = sink.drain().clone();
    let second = sink.drain().clone();
    assert_eq!(first, second);
    assert_eq!(first[0], (String::from("a"), SyntaxCategory::Text));
    assert_eq!(first[1], (String::from("1"), SyntaxCategory::Number));
}

#[test]
fn mov_rbp_rsp_renders_one_colored_line() {
    let lines = colorize(&[0x48, 0x89, 0xE5], 0, 64);
    assert_eq!(lines.len(), 1);
    let line = &lines[0];
    assert_eq!(line_text(line), "mov     rbp,rsp");
    assert_eq!(color_of_text(line, "mov"), vec![Color::BrightRed]);
    assert_eq!(color_of_text(line, "rbp"), vec![Color::BrightBlue]);
    assert_eq!(color_of_text(line, "rsp"), vec![Color::BrightBlue]);
}

#[test]
fn mnemonic_fragment_has_mnemonic_category() {
    let mut sink = Output::new();
    let step = render_step(&[0x48, 0x89, 0xE5], 0, 64, &mut sink);
    assert_eq!(step.map(|(n, _)| n), Some(3));
    let fragments = sink.drain();
    assert_eq!(fragments[0], (String::from("mov"), SyntaxCategory::Mnemonic));
    assert!(fragments
        .iter()
        .any(|f| *f == (String::from("rsp"), SyntaxCategory::Register)));
}

#[test]
fn empty_buffer_gives_no_lines() {
    assert!(colorize(&[], 0, 64).is_empty());
    let mut sink = Output::new();
    assert!(render_step(&[], 0, 64, &mut sink).is_none());
}

#[test]
fn truncated_single_byte_gives_no_lines() {
    assert!(colorize(&[0x48], 0, 64).is_empty());
    assert!(colorize(&[0x0F], 0, 32).is_empty());
}

#[test]
fn truncated_tail_is_dropped() {
    let lines = colorize(&[0x90, 0x90, 0x48, 0x89], 0, 64);
    assert_eq!(lines.len(), 2);
    assert_eq!(line_text(&lines[0]), "nop");
    assert_eq!(line_text(&lines[1]), "nop");
}

#[test]
fn lines_follow_program_order() {
    let lines = colorize(&[0x55, 0x48, 0x89, 0xE5, 0xC3], 0, 64);
    assert_eq!(lines.len(), 3);
    assert_eq!(line_text(&lines[0]), "push    rbp");
    assert_eq!(line_text(&lines[1]), "mov     rbp,rsp");
    assert_eq!(line_text(&lines[2]), "ret");
}

#[test]
fn malformed_instruction_is_rendered_and_decoding_goes_on() {
    let lines = colorize(&[0xF0, 0x01, 0xCE, 0x90], 0, 64);
    let texts: Vec<String> = lines.iter().map(|l| line_text(l)).collect();
    assert_eq!(texts, vec![String::from("(bad)"), String::from("nop")]);
}

#[test]
fn bit_width_selects_register_size() {
    let lines32 = colorize(&[0x89, 0xE5], 0, 32);
    assert_eq!(lines32.len(), 1);
    assert_eq!(line_text(&lines32[0]), "mov     ebp,esp");
    let lines16 = colorize(&[0x89, 0xE5], 0, 16);
    assert_eq!(lines16.len(), 1);
    assert_eq!(line_text(&lines16[0]), "mov     bp,sp");
}

#[test]
fn base_address_sets_branch_targets() {
    let at_zero = colorize(&[0xEB, 0xFE], 0, 64);
    let at_1000 = colorize(&[0xEB, 0xFE], 0x1000, 64);
    assert_eq!(at_zero.len(), 1);
    assert_eq!(at_1000.len(), 1);
    let target: Vec<&(String, Color)> = at_1000[0]
        .iter()
        .filter(|(_, c)| *c == Color::BrightGreen)
        .collect();
    assert_eq!(target.len(), 1);
    assert!(target[0].0.contains("1000"));
    assert_ne!(line_text(&at_zero[0]), line_text(&at_1000[0]));
}

#[test]
fn second_instruction_holds_no_fragment_of_first() {
    let mut sink = Output::new();
    let first = render_step(&[0x48, 0x89, 0xE5], 0, 64, &mut sink);
    assert!(first.is_some());
    let first_texts: Vec<String> = sink.drain().iter().map(|(t, _)| t.clone()).collect();
    let second = render_step(&[0xC3], 3, 64, &mut sink);
    assert!(second.is_some());
    let drained = sink.drain();
    assert_eq!(drained.clone(), vec![(String::from("ret"), SyntaxCategory::Mnemonic)]);
    for (text, _) in drained.iter() {
        assert!(!first_texts.contains(text));
    }
}

#[test]
fn formatting_twice_gives_identical_fragments() {
    let bytes = [0x48, 0x8B, 0x44, 0x24, 0x08];
    let mut a = Output::new();
    let mut b = Output::new();
    b.append(String::from("stale"), SyntaxCategory::Text);
    let ra = render_step(&bytes, 0x400000, 64, &mut a);
    let rb = render_step(&bytes, 0x400000, 64, &mut b);
    assert_eq!(a.drain().clone(), b.drain().clone());
    assert_eq!(ra, rb);
    assert!(!a.drain().is_empty());
}

#[test]
fn settings_fill_in_defaults() {
    let args = Args { input: String::from("code.bin"), bitness: None, rip: None };
    assert_eq!(args.settings(), Ok(Settings { rip: 0, bitness: 64 }));
    let args = Args { input: String::from("code.bin"), bitness: Some(16), rip: Some(0x7C00) };
    assert_eq!(args.settings(), Ok(Settings { rip: 0x7C00, bitness: 16 }));
    let args = Args { input: String::from("code.bin"), bitness: Some(32), rip: None };
    assert_eq!(args.settings(), Ok(Settings { rip: 0, bitness: 32 }));
}

#[test]
fn settings_refuse_unsupported_bitness() {
    let args = Args { input: String::from("code.bin"), bitness: Some(8), rip: None };
    assert_eq!(args.settings(), Err(SettingsError::UnsupportedBitness(8)));
    let args = Args { input: String::from("code.bin"), bitness: Some(0), rip: Some(1) };
    assert_eq!(args.settings(), Err(SettingsError::UnsupportedBitness(0)));
}

#[test]
fn write_appends_text_with_its_category() {
    let mut sink = Output::new();
    sink.write("mov", FormatterTextKind::Mnemonic);
    sink.write("rax", FormatterTextKind::Register);
    sink.write(",", FormatterTextKind::Punctuation);
    sink.write("dword", FormatterTextKind::Keyword);
    assert_eq!(
        sink.drain().clone(),
        vec![
            (String::from("mov"), SyntaxCategory::Mnemonic),
            (String::from("rax"), SyntaxCategory::Register),
            (String::from(","), SyntaxCategory::Other),
            (String::from("dword"), SyntaxCategory::Keyword),
        ]
    );
}

#[test]
fn renderer_hands_out_lines_one_by_one() {
    let bytes = [0x55, 0xC3, 0x48];
    let mut renderer = Renderer::new(&bytes, 0, 64);
    let first = renderer.next_line().unwrap();
    assert_eq!(line_text(&first), "push    rbp");
    let second = renderer.next_line().unwrap();
    assert_eq!(line_text(&second), "ret");
    assert!(renderer.next_line().is_none());
    assert!(renderer.next_line().is_none());
    let whole = colorize(&bytes, 0, 64);
    assert_eq!(whole, vec![first, second]);
}

#[test]
fn step_lengths_do_not_depend_on_base_address() {
    let bytes = [0x48, 0x89, 0xE5, 0xEB, 0xFE, 0x90];
    let low = colorize(&bytes, 0, 64);
    let high = colorize(&bytes, 0xFFFF_FFFF_FFFF_FFF0, 64);
    assert_eq!(low.len(), 3);
    assert_eq!(high.len(), 3);
    assert_eq!(line_text(&low[0]), line_text(&high[0]));
    assert_eq!(line_text(&low[2]), line_text(&high[2]));
    assert_ne!(line_text(&low[1]), line_text(&high[1]));
}

#[test]
fn text_kinds_map_to_categories() {
    assert_eq!(category_of(FormatterTextKind::Directive), SyntaxCategory::Directive);
    assert_eq!(category_of(FormatterTextKind::Keyword), SyntaxCategory::Keyword);
    assert_eq!(category_of(FormatterTextKind::Prefix), SyntaxCategory::Prefix);
    assert_eq!(category_of(FormatterTextKind::Mnemonic), SyntaxCategory::Mnemonic);
    assert_eq!(category_of(FormatterTextKind::Register), SyntaxCategory::Register);
    assert_eq!(category_of(FormatterTextKind::Number), SyntaxCategory::Number);
    assert_eq!(category_of(FormatterTextKind::LabelAddress), SyntaxCategory::LabelAddress);
    assert_eq!(category_of(FormatterTextKind::FunctionAddress), SyntaxCategory::FunctionAddress);
    assert_eq!(category_of(FormatterTextKind::Text), SyntaxCategory::Text);
    assert_eq!(category_of(FormatterTextKind::Operator), SyntaxCategory::Operator);
    for kind in [
        FormatterTextKind::Punctuation,
        FormatterTextKind::Decorator,
        FormatterTextKind::SelectorValue,
        FormatterTextKind::Data,
        FormatterTextKind::Label,
        FormatterTextKind::Function,
    ] {
        assert_eq!(category_of(kind), SyntaxCategory::Other);
        assert_eq!(classify(category_of(kind)), Color::White);
    }
}

#[test]
fn step_length_stays_between_one_and_bytes_left() {
    assert_eq!(step_length(0, 5), 1);
    assert_eq!(step_length(3, 5), 3);
    assert_eq!(step_length(5, 5), 5);
    assert_eq!(step_length(9, 4), 4);
    assert_eq!(step_length(15, 1), 1);
}

#[test]
fn finish_step_drops_short_and_colors_the_rest() {
    let mut sink = Output::new();
    sink.append(String::from("jmp"), SyntaxCategory::Mnemonic);
    sink.append(String::from(" "), SyntaxCategory::Text);
    sink.append(String::from("1000h"), SyntaxCategory::LabelAddress);
    assert!(finish_step(2, true, 1, &sink).is_none());
    let (n, line) = finish_step(2, false, 6, &sink).unwrap();
    assert_eq!(n, 2);
    assert_eq!(
        line,
        vec![
            (String::from("jmp"), Color::BrightRed),
            (String::from(" "), Color::Green),
            (String::from("1000h"), Color::BrightGreen),
        ]
    );
    let (n, _) = finish_step(0, false, 6, &sink).unwrap();
    assert_eq!(n, 1);
    let (n, _) = finish_step(7, false, 3, &sink).unwrap();
    assert_eq!(n, 3);
}
