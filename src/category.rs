use vstd::prelude::*;
use iced_x86::FormatterTextKind;

verus! {

/// The grammatical role of a fragment of rendered assembly text.
#[derive(Clone, Copy, Debug, PartialEq, Eq, Structural)]
pub enum SyntaxCategory {
    Directive,
    Keyword,
    Prefix,
    Mnemonic,
    Register,
    Number,
    LabelAddress,
    FunctionAddress,
    Text,
    Operator,
    Other,
}

/// A terminal display color.
#[derive(Clone, Copy, Debug, PartialEq, Eq, Structural)]
pub enum Color {
    BrightYellow,
    BrightRed,
    BrightBlue,
    BrightCyan,
    BrightGreen,
    Green,
    BrightMagenta,
    White,
}

/// The color in which text of each category is shown.
pub open spec fn color_of(category: SyntaxCategory) -> Color {
    match category {
        SyntaxCategory::Directive | SyntaxCategory::Keyword => Color::BrightYellow,
        SyntaxCategory::Prefix | SyntaxCategory::Mnemonic => Color::BrightRed,
        SyntaxCategory::Register => Color::BrightBlue,
        SyntaxCategory::Number => Color::BrightCyan,
        SyntaxCategory::LabelAddress | SyntaxCategory::FunctionAddress => Color::BrightGreen,
        SyntaxCategory::Text => Color::Green,
        SyntaxCategory::Operator => Color::BrightMagenta,
        SyntaxCategory::Other => Color::White,
    }
}

/// Maps a syntax category to its display color; total over every category.
pub fn classify(category: SyntaxCategory) -> (r: Color)
    ensures
        r == color_of(category),
{
    match category {
        SyntaxCategory::Directive | SyntaxCategory::Keyword => Color::BrightYellow,
        SyntaxCategory::Prefix | SyntaxCategory::Mnemonic => Color::BrightRed,
        SyntaxCategory::Register => Color::BrightBlue,
        SyntaxCategory::Number => Color::BrightCyan,
        SyntaxCategory::LabelAddress | SyntaxCategory::FunctionAddress => Color::BrightGreen,
        SyntaxCategory::Text => Color::Green,
        SyntaxCategory::Operator => Color::BrightMagenta,
        _ => Color::White,
    }
}

/// The category of a fragment that the formatter writes with text kind `kind`:
/// each kind with a category of its own keeps it, every other kind is `Other`.
pub open spec fn category_spec(kind: FormatterTextKind) -> SyntaxCategory {
    match kind {
        FormatterTextKind::Directive => SyntaxCategory::Directive,
        FormatterTextKind::Keyword => SyntaxCategory::Keyword,
        FormatterTextKind::Prefix => SyntaxCategory::Prefix,
        FormatterTextKind::Mnemonic => SyntaxCategory::Mnemonic,
        FormatterTextKind::Register => SyntaxCategory::Register,
        FormatterTextKind::Number => SyntaxCategory::Number,
        FormatterTextKind::LabelAddress => SyntaxCategory::LabelAddress,
        FormatterTextKind::FunctionAddress => SyntaxCategory::FunctionAddress,
        FormatterTextKind::Text => SyntaxCategory::Text,
        FormatterTextKind::Operator => SyntaxCategory::Operator,
        _ => SyntaxCategory::Other,
    }
}

/// The category of a fragment that the formatter writes with text kind `kind`.
pub fn category_of(kind: FormatterTextKind) -> (r: SyntaxCategory)
    ensures
        r == category_spec(kind),
{
    match kind {
        FormatterTextKind::Directive => SyntaxCategory::Directive,
        FormatterTextKind::Keyword => SyntaxCategory::Keyword,
        FormatterTextKind::Prefix => SyntaxCategory::Prefix,
        FormatterTextKind::Mnemonic => SyntaxCategory::Mnemonic,
        FormatterTextKind::Register => SyntaxCategory::Register,
        FormatterTextKind::Number => SyntaxCategory::Number,
        FormatterTextKind::LabelAddress => SyntaxCategory::LabelAddress,
        FormatterTextKind::FunctionAddress => SyntaxCategory::FunctionAddress,
        FormatterTextKind::Text => SyntaxCategory::Text,
        FormatterTextKind::Operator => SyntaxCategory::Operator,
        _ => SyntaxCategory::Other,
    }
}

} // verus!
