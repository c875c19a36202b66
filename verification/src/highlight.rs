//! Syntax highlighting: token categories, their palette, and the span
//! pipeline that turns a tokenizer's event stream into a flat, sorted,
//! gap-free list of classified character ranges.

use crate::buffer::TextBuffer;
use crate::text::{
    char_of_byte, lemma_char_of_byte_bounds, lemma_char_of_byte_monotone, lemma_utf8_len_bounds,
    utf8_len,
};
use vstd::prelude::*;

verus! {

/// An 8-bit sRGB color with alpha.
#[derive(Clone, Copy, Debug, PartialEq, Eq, Structural)]
pub struct Color {
    pub r: u8,
    pub g: u8,
    pub b: u8,
    pub a: u8,
}

/// The color of unclassified text.
pub open spec fn default_color_spec() -> Color {
    Color { r: 230, g: 230, b: 230, a: 255 }
}

/// The color used for text no category claimed.
pub fn default_color() -> (c: Color)
    ensures
        c == default_color_spec(),
{
    Color { r: 230, g: 230, b: 230, a: 255 }
}

/// The token categories the highlighter can assign, in the order they are
/// handed to a grammar configuration: a tokenizer reports a category by its
/// index in this order.
#[derive(Clone, Copy, Debug, PartialEq, Eq, Structural)]
pub enum HighlightNames {
    Constant,
    ConstantBuiltin,
    Tag,
    Type,
    TypeBuiltin,
    Constructor,
    Function,
    FunctionBuiltin,
    FunctionMethod,
    FunctionMacro,
    Property,
    Comment,
    PunctuationBracket,
    PunctuationDelimiter,
    PunctuationSpecial,
    Variable,
    VariableParameter,
    VariableBuiltin,
    Label,
    Keyword,
    String,
    StringSpecial,
    Escape,
    Attribute,
    Operator,
    Embedded,
    Number,
    InjectionLanguage,
    InjectionContent,
    LocalScope,
    LocalDefinition,
    LocalReference,
}

/// The category a tokenizer's numeric index denotes.
pub open spec fn from_index_spec(i: int) -> Option<HighlightNames> {
    if i == 0 {
        Some(HighlightNames::Constant)
    } else if i == 1 {
        Some(HighlightNames::ConstantBuiltin)
    } else if i == 2 {
        Some(HighlightNames::Tag)
    } else if i == 3 {
        Some(HighlightNames::Type)
    } else if i == 4 {
        Some(HighlightNames::TypeBuiltin)
    } else if i == 5 {
        Some(HighlightNames::Constructor)
    } else if i == 6 {
        Some(HighlightNames::Function)
    } else if i == 7 {
        Some(HighlightNames::FunctionBuiltin)
    } else if i == 8 {
        Some(HighlightNames::FunctionMethod)
    } else if i == 9 {
        Some(HighlightNames::FunctionMacro)
    } else if i == 10 {
        Some(HighlightNames::Property)
    } else if i == 11 {
        Some(HighlightNames::Comment)
    } else if i == 12 {
        Some(HighlightNames::PunctuationBracket)
    } else if i == 13 {
        Some(HighlightNames::PunctuationDelimiter)
    } else if i == 14 {
        Some(HighlightNames::PunctuationSpecial)
    } else if i == 15 {
        Some(HighlightNames::Variable)
    } else if i == 16 {
        Some(HighlightNames::VariableParameter)
    } else if i == 17 {
        Some(HighlightNames::VariableBuiltin)
    } else if i == 18 {
        Some(HighlightNames::Label)
    } else if i == 19 {
        Some(HighlightNames::Keyword)
    } else if i == 20 {
        Some(HighlightNames::String)
    } else if i == 21 {
        Some(HighlightNames::StringSpecial)
    } else if i == 22 {
        Some(HighlightNames::Escape)
    } else if i == 23 {
        Some(HighlightNames::Attribute)
    } else if i == 24 {
        Some(HighlightNames::Operator)
    } else if i == 25 {
        Some(HighlightNames::Embedded)
    } else if i == 26 {
        Some(HighlightNames::Number)
    } else if i == 27 {
        Some(HighlightNames::InjectionLanguage)
    } else if i == 28 {
        Some(HighlightNames::InjectionContent)
    } else if i == 29 {
        Some(HighlightNames::LocalScope)
    } else if i == 30 {
        Some(HighlightNames::LocalDefinition)
    } else if i == 31 {
        Some(HighlightNames::LocalReference)
    } else {
        None
    }
}

impl HighlightNames {
    /// Looks a category up by its numeric index.
    pub fn from_index(i: usize) -> (r: Option<HighlightNames>)
        ensures
            r == from_index_spec(i as int),
    {
        match i {
            0usize => Some(HighlightNames::Constant),
            1usize => Some(HighlightNames::ConstantBuiltin),
            2usize => Some(HighlightNames::Tag),
            3usize => Some(HighlightNames::Type),
            4usize => Some(HighlightNames::TypeBuiltin),
            5usize => Some(HighlightNames::Constructor),
            6usize => Some(HighlightNames::Function),
            7usize => Some(HighlightNames::FunctionBuiltin),
            8usize => Some(HighlightNames::FunctionMethod),
            9usize => Some(HighlightNames::FunctionMacro),
            10usize => Some(HighlightNames::Property),
            11usize => Some(HighlightNames::Comment),
            12usize => Some(HighlightNames::PunctuationBracket),
            13usize => Some(HighlightNames::PunctuationDelimiter),
            14usize => Some(HighlightNames::PunctuationSpecial),
            15usize => Some(HighlightNames::Variable),
            16usize => Some(HighlightNames::VariableParameter),
            17usize => Some(HighlightNames::VariableBuiltin),
            18usize => Some(HighlightNames::Label),
            19usize => Some(HighlightNames::Keyword),
            20usize => Some(HighlightNames::String),
            21usize => Some(HighlightNames::StringSpecial),
            22usize => Some(HighlightNames::Escape),
            23usize => Some(HighlightNames::Attribute),
            24usize => Some(HighlightNames::Operator),
            25usize => Some(HighlightNames::Embedded),
            26usize => Some(HighlightNames::Number),
            27usize => Some(HighlightNames::InjectionLanguage),
            28usize => Some(HighlightNames::InjectionContent),
            29usize => Some(HighlightNames::LocalScope),
            30usize => Some(HighlightNames::LocalDefinition),
            31usize => Some(HighlightNames::LocalReference),
            _ => None,
        }
    }

    /// The palette entry of each category.
    pub open spec fn color_spec(self) -> Color {
        match self {
            HighlightNames::Constant => Color { r: 152, g: 118, b: 170, a: 255 },
            HighlightNames::ConstantBuiltin => Color { r: 168, g: 85, b: 114, a: 255 },
            HighlightNames::Tag => Color { r: 240, g: 198, b: 116, a: 255 },
            HighlightNames::Type => Color { r: 240, g: 198, b: 116, a: 255 },
            HighlightNames::TypeBuiltin => Color { r: 204, g: 120, b: 50, a: 255 },
            HighlightNames::Constructor => Color { r: 233, g: 190, b: 104, a: 255 },
            HighlightNames::Function => Color { r: 230, g: 230, b: 230, a: 255 },
            HighlightNames::FunctionBuiltin => Color { r: 230, g: 230, b: 230, a: 255 },
            HighlightNames::FunctionMethod => Color { r: 233, g: 190, b: 104, a: 255 },
            HighlightNames::FunctionMacro => Color { r: 78, g: 173, b: 229, a: 255 },
            HighlightNames::Property => Color { r: 152, g: 119, b: 170, a: 255 },
            HighlightNames::Comment => Color { r: 122, g: 88, b: 134, a: 255 },
            HighlightNames::PunctuationBracket => Color { r: 230, g: 230, b: 230, a: 255 },
            HighlightNames::PunctuationDelimiter => Color { r: 71, g: 155, b: 126, a: 255 },
            HighlightNames::PunctuationSpecial => Color { r: 71, g: 155, b: 126, a: 255 },
            HighlightNames::Variable => Color { r: 204, g: 120, b: 50, a: 255 },
            HighlightNames::VariableParameter => Color { r: 204, g: 102, b: 102, a: 255 },
            HighlightNames::VariableBuiltin => Color { r: 204, g: 120, b: 50, a: 255 },
            HighlightNames::Label => Color { r: 32, g: 153, b: 157, a: 255 },
            HighlightNames::Keyword => Color { r: 204, g: 120, b: 50, a: 255 },
            HighlightNames::String => Color { r: 129, g: 186, b: 89, a: 255 },
            HighlightNames::StringSpecial => Color { r: 129, g: 186, b: 89, a: 255 },
            HighlightNames::Escape => Color { r: 135, g: 189, b: 198, a: 255 },
            HighlightNames::Attribute => Color { r: 212, g: 181, b: 41, a: 255 },
            HighlightNames::Operator => Color { r: 71, g: 155, b: 126, a: 255 },
            HighlightNames::Embedded => Color { r: 71, g: 155, b: 126, a: 255 },
            HighlightNames::Number => Color { r: 71, g: 155, b: 126, a: 255 },
            HighlightNames::InjectionLanguage => Color { r: 71, g: 155, b: 126, a: 255 },
            HighlightNames::InjectionContent => Color { r: 71, g: 155, b: 126, a: 255 },
            HighlightNames::LocalScope => Color { r: 71, g: 155, b: 126, a: 255 },
            HighlightNames::LocalDefinition => Color { r: 71, g: 155, b: 126, a: 255 },
            HighlightNames::LocalReference => Color { r: 71, g: 155, b: 126, a: 255 },
        }
    }

    /// The display color of this category.
    pub fn color(&self) -> (c: Color)
        ensures
            c == self.color_spec(),
    {
        match self {
            HighlightNames::Constant => Color { r: 152, g: 118, b: 170, a: 255 },
            HighlightNames::ConstantBuiltin => Color { r: 168, g: 85, b: 114, a: 255 },
            HighlightNames::Tag => Color { r: 240, g: 198, b: 116, a: 255 },
            HighlightNames::Type => Color { r: 240, g: 198, b: 116, a: 255 },
            HighlightNames::TypeBuiltin => Color { r: 204, g: 120, b: 50, a: 255 },
            HighlightNames::Constructor => Color { r: 233, g: 190, b: 104, a: 255 },
            HighlightNames::Function => Color { r: 230, g: 230, b: 230, a: 255 },
            HighlightNames::FunctionBuiltin => Color { r: 230, g: 230, b: 230, a: 255 },
            HighlightNames::FunctionMethod => Color { r: 233, g: 190, b: 104, a: 255 },
            HighlightNames::FunctionMacro => Color { r: 78, g: 173, b: 229, a: 255 },
            HighlightNames::Property => Color { r: 152, g: 119, b: 170, a: 255 },
            HighlightNames::Comment => Color { r: 122, g: 88, b: 134, a: 255 },
            HighlightNames::PunctuationBracket => Color { r: 230, g: 230, b: 230, a: 255 },
            HighlightNames::PunctuationDelimiter => Color { r: 71, g: 155, b: 126, a: 255 },
            HighlightNames::PunctuationSpecial => Color { r: 71, g: 155, b: 126, a: 255 },
            HighlightNames::Variable => Color { r: 204, g: 120, b: 50, a: 255 },
            HighlightNames::VariableParameter => Color { r: 204, g: 102, b: 102, a: 255 },
            HighlightNames::VariableBuiltin => Color { r: 204, g: 120, b: 50, a: 255 },
            HighlightNames::Label => Color { r: 32, g: 153, b: 157, a: 255 },
            HighlightNames::Keyword => Color { r: 204, g: 120, b: 50, a: 255 },
            HighlightNames::String => Color { r: 129, g: 186, b: 89, a: 255 },
            HighlightNames::StringSpecial => Color { r: 129, g: 186, b: 89, a: 255 },
            HighlightNames::Escape => Color { r: 135, g: 189, b: 198, a: 255 },
            HighlightNames::Attribute => Color { r: 212, g: 181, b: 41, a: 255 },
            HighlightNames::Operator => Color { r: 71, g: 155, b: 126, a: 255 },
            HighlightNames::Embedded => Color { r: 71, g: 155, b: 126, a: 255 },
            HighlightNames::Number => Color { r: 71, g: 155, b: 126, a: 255 },
            HighlightNames::InjectionLanguage => Color { r: 71, g: 155, b: 126, a: 255 },
            HighlightNames::InjectionContent => Color { r: 71, g: 155, b: 126, a: 255 },
            HighlightNames::LocalScope => Color { r: 71, g: 155, b: 126, a: 255 },
            HighlightNames::LocalDefinition => Color { r: 71, g: 155, b: 126, a: 255 },
            HighlightNames::LocalReference => Color { r: 71, g: 155, b: 126, a: 255 },
        }
    }

    /// The name of each category, as grammars spell it.
    pub open spec fn name_spec(self) -> Seq<char> {
        match self {
            HighlightNames::Constant => "constant"@,
            HighlightNames::ConstantBuiltin => "constant.builtin"@,
            HighlightNames::Tag => "tag"@,
            HighlightNames::Type => "type"@,
            HighlightNames::TypeBuiltin => "type.builtin"@,
            HighlightNames::Constructor => "constructor"@,
            HighlightNames::Function => "function"@,
            HighlightNames::FunctionBuiltin => "function.builtin"@,
            HighlightNames::FunctionMethod => "function.method"@,
            HighlightNames::FunctionMacro => "function.macro"@,
            HighlightNames::Property => "property"@,
            HighlightNames::Comment => "comment"@,
            HighlightNames::PunctuationBracket => "punctuation.bracket"@,
            HighlightNames::PunctuationDelimiter => "punctuation.delimiter"@,
            HighlightNames::PunctuationSpecial => "punctuation.special"@,
            HighlightNames::Variable => "variable"@,
            HighlightNames::VariableParameter => "variable.parameter"@,
            HighlightNames::VariableBuiltin => "variable.builtin"@,
            HighlightNames::Label => "label"@,
            HighlightNames::Keyword => "keyword"@,
            HighlightNames::String => "string"@,
            HighlightNames::StringSpecial => "string.special"@,
            HighlightNames::Escape => "escape"@,
            HighlightNames::Attribute => "attribute"@,
            HighlightNames::Operator => "operator"@,
            HighlightNames::Embedded => "embedded"@,
            HighlightNames::Number => "number"@,
            HighlightNames::InjectionLanguage => "injection.language"@,
            HighlightNames::InjectionContent => "injection.content"@,
            HighlightNames::LocalScope => "local.scope"@,
            HighlightNames::LocalDefinition => "local.definition"@,
            HighlightNames::LocalReference => "local.reference"@,
        }
    }

    /// The name of this category, as grammars spell it.
    pub fn name(&self) -> (r: &'static str)
        ensures
            r@ == self.name_spec(),
    {
        match self {
            HighlightNames::Constant => "constant",
            HighlightNames::ConstantBuiltin => "constant.builtin",
            HighlightNames::Tag => "tag",
            HighlightNames::Type => "type",
            HighlightNames::TypeBuiltin => "type.builtin",
            HighlightNames::Constructor => "constructor",
            HighlightNames::Function => "function",
            HighlightNames::FunctionBuiltin => "function.builtin",
            HighlightNames::FunctionMethod => "function.method",
            HighlightNames::FunctionMacro => "function.macro",
            HighlightNames::Property => "property",
            HighlightNames::Comment => "comment",
            HighlightNames::PunctuationBracket => "punctuation.bracket",
            HighlightNames::PunctuationDelimiter => "punctuation.delimiter",
            HighlightNames::PunctuationSpecial => "punctuation.special",
            HighlightNames::Variable => "variable",
            HighlightNames::VariableParameter => "variable.parameter",
            HighlightNames::VariableBuiltin => "variable.builtin",
            HighlightNames::Label => "label",
            HighlightNames::Keyword => "keyword",
            HighlightNames::String => "string",
            HighlightNames::StringSpecial => "string.special",
            HighlightNames::Escape => "escape",
            HighlightNames::Attribute => "attribute",
            HighlightNames::Operator => "operator",
            HighlightNames::Embedded => "embedded",
            HighlightNames::Number => "number",
            HighlightNames::InjectionLanguage => "injection.language",
            HighlightNames::InjectionContent => "injection.content",
            HighlightNames::LocalScope => "local.scope",
            HighlightNames::LocalDefinition => "local.definition",
            HighlightNames::LocalReference => "local.reference",
        }
    }
}

/// All category names, in index order: the list a grammar configuration is
/// told to recognize, so that a reported index `i` denotes
/// `from_index_spec(i)`.
pub fn highlight_names() -> (r: Vec<&'static str>)
    ensures
        r@.len() == 32,
        forall|i: int|
            0 <= i < 32 ==> (#[trigger] r@[i])@ == from_index_spec(i).unwrap().name_spec(),
{
    let mut names: Vec<&'static str> = Vec::new();
    names.push("constant");
    names.push("constant.builtin");
    names.push("tag");
    names.push("type");
    names.push("type.builtin");
    names.push("constructor");
    names.push("function");
    names.push("function.builtin");
    names.push("function.method");
    names.push("function.macro");
    names.push("property");
    names.push("comment");
    names.push("punctuation.bracket");
    names.push("punctuation.delimiter");
    names.push("punctuation.special");
    names.push("variable");
    names.push("variable.parameter");
    names.push("variable.builtin");
    names.push("label");
    names.push("keyword");
    names.push("string");
    names.push("string.special");
    names.push("escape");
    names.push("attribute");
    names.push("operator");
    names.push("embedded");
    names.push("number");
    names.push("injection.language");
    names.push("injection.content");
    names.push("local.scope");
    names.push("local.definition");
    names.push("local.reference");
    proof {
        assert forall|i: int| 0 <= i < 32 implies (#[trigger] names@[i])@ == from_index_spec(
            i,
        ).unwrap().name_spec() by {
            if i < 16 {
                assert((i == 0 || i == 1 || i == 2 || i == 3 || i == 4 || i == 5 || i == 6 || i == 7
                    || i == 8 || i == 9 || i == 10 || i == 11 || i == 12 || i == 13 || i == 14
                    || i == 15));
            } else {
                assert((i == 16 || i == 17 || i == 18 || i == 19 || i == 20 || i == 21 || i == 22
                    || i == 23 || i == 24 || i == 25 || i == 26 || i == 27 || i == 28 || i == 29
                    || i == 30 || i == 31));
            }
        }
    }
    names
}

/// One step of a tokenizer's event stream: a run of source bytes, the
/// opening of a category scope, or the closing of the innermost open scope.
#[derive(Clone, Copy, Debug, PartialEq, Eq, Structural)]
pub enum HighlightEvent {
    Source { start: usize, end: usize },
    HighlightStart(usize),
    HighlightEnd,
}

/// A classified character range: start, end, and the category that applies,
/// if any.
pub type Span = (usize, usize, Option<HighlightNames>);

/// The source runs of an event stream form a chain from `pos` to `len`:
/// each starts where the previous one ended, never runs backwards, and the
/// last one ends at `len`.
pub open spec fn events_chain(evs: Seq<HighlightEvent>, pos: int, len: int) -> bool
    decreases evs.len(),
{
    if evs.len() == 0 {
        pos == len
    } else {
        match evs[0] {
            HighlightEvent::Source { start, end } => start == pos && start <= end && end <= len
                && events_chain(evs.drop_first(), end as int, len),
            _ => events_chain(evs.drop_first(), pos, len),
        }
    }
}

/// The spans form a chain from `pos` to `len`.
pub open spec fn spans_chain(sp: Seq<Span>, pos: int, len: int) -> bool
    decreases sp.len(),
{
    if sp.len() == 0 {
        pos == len
    } else {
        sp[0].0 == pos && sp[0].0 <= sp[0].1 && spans_chain(sp.drop_first(), sp[0].1 as int, len)
    }
}

/// The spans are contiguous, start at zero, and end exactly at `len`: no
/// gaps and no overlaps.
pub open spec fn spans_cover(sp: Seq<Span>, len: int) -> bool {
    &&& (sp.len() == 0 ==> len == 0)
    &&& (sp.len() > 0 ==> sp[0].0 == 0 && sp[sp.len() - 1].1 == len)
    &&& (forall|i: int| 0 <= i < sp.len() ==> (#[trigger] sp[i].0) <= sp[i].1)
    &&& (forall|i: int| 0 <= i < sp.len() - 1 ==> (#[trigger] sp[i].1) == sp[i + 1].0)
}

/// A chain of spans covers its range.
pub proof fn lemma_spans_chain_cover(sp: Seq<Span>, pos: int, len: int)
    requires
        spans_chain(sp, pos, len),
    ensures
        sp.len() == 0 ==> pos == len,
        sp.len() > 0 ==> sp[0].0 == pos && sp[sp.len() - 1].1 == len,
        forall|i: int| 0 <= i < sp.len() ==> (#[trigger] sp[i].0) <= sp[i].1,
        forall|i: int| 0 <= i < sp.len() - 1 ==> (#[trigger] sp[i].1) == sp[i + 1].0,
    decreases sp.len(),
{
    if sp.len() > 0 {
        lemma_spans_chain_cover(sp.drop_first(), sp[0].1 as int, len);
        assert forall|i: int| 0 <= i < sp.len() implies (#[trigger] sp[i].0) <= sp[i].1 by {
            if i > 0 {
                assert(sp.drop_first()[i - 1] == sp[i]);
            }
        }
        assert forall|i: int| 0 <= i < sp.len() - 1 implies (#[trigger] sp[i].1) == sp[i + 1].0 by {
            if i > 0 {
                assert(sp.drop_first()[i - 1] == sp[i]);
                assert(sp.drop_first()[i] == sp[i + 1]);
            } else {
                if sp.len() > 1 {
                    assert(sp.drop_first()[0] == sp[1]);
                }
            }
        }
    }
}

/// Checks that the source runs of `evs` chain from byte 0 to `len`.
pub fn validate_events(evs: &Vec<HighlightEvent>, len: usize) -> (r: bool)
    ensures
        r == events_chain(evs@, 0, len as int),
{
    let mut pos: usize = 0;
    let mut i: usize = 0;
    proof {
        assert(evs@.skip(0) =~= evs@);
    }
    while i < evs.len()
        invariant
            0 <= i <= evs@.len(),
            events_chain(evs@, 0, len as int) == events_chain(evs@.skip(i as int), pos as int, len as int),
        decreases evs@.len() - i,
    {
        proof {
            assert(evs@.skip(i as int)[0] == evs@[i as int]);
            assert(evs@.skip(i as int).drop_first() =~= evs@.skip(i as int + 1));
        }
        match evs[i] {
            HighlightEvent::Source { start, end } => {
                if !(start == pos && start <= end && end <= len) {
                    return false;
                }
                pos = end;
            },
            _ => {},
        }
        i = i + 1;
    }
    proof {
        assert(evs@.skip(evs@.len() as int) =~= Seq::<HighlightEvent>::empty());
    }
    pos == len
}

/// The innermost open category: what the most recently opened scope maps
/// to, or nothing when no scope is open.
pub open spec fn innermost(stack: Seq<Option<HighlightNames>>) -> Option<HighlightNames> {
    if stack.len() == 0 {
        None
    } else {
        stack.last()
    }
}

/// The flat span list an event stream reduces to, given the open scopes in
/// `stack`: each source run becomes one span tagged with the innermost open
/// category; scope events only change the stack. A category index that maps
/// to no known category is carried as `None`.
pub open spec fn reduce_spec(evs: Seq<HighlightEvent>, stack: Seq<Option<HighlightNames>>) -> Seq<
    Span,
>
    decreases evs.len(),
{
    if evs.len() == 0 {
        Seq::empty()
    } else {
        match evs[0] {
            HighlightEvent::Source { start, end } => seq![(start, end, innermost(stack))]
                + reduce_spec(evs.drop_first(), stack),
            HighlightEvent::HighlightStart(s) => reduce_spec(
                evs.drop_first(),
                stack.push(from_index_spec(s as int)),
            ),
            HighlightEvent::HighlightEnd => reduce_spec(
                evs.drop_first(),
                if stack.len() == 0 {
                    stack
                } else {
                    stack.drop_last()
                },
            ),
        }
    }
}

/// Reducing a chained event stream yields a chained span list.
pub proof fn lemma_reduce_chain(
    evs: Seq<HighlightEvent>,
    stack: Seq<Option<HighlightNames>>,
    pos: int,
    len: int,
)
    requires
        events_chain(evs, pos, len),
    ensures
        spans_chain(reduce_spec(evs, stack), pos, len),
    decreases evs.len(),
{
    if evs.len() > 0 {
        match evs[0] {
            HighlightEvent::Source { start, end } => {
                lemma_reduce_chain(evs.drop_first(), stack, end as int, len);
                assert(reduce_spec(evs, stack).drop_first() =~= reduce_spec(
                    evs.drop_first(),
                    stack,
                ));
            },
            HighlightEvent::HighlightStart(s) => {
                lemma_reduce_chain(evs.drop_first(), stack.push(from_index_spec(s as int)), pos, len);
            },
            HighlightEvent::HighlightEnd => {
                lemma_reduce_chain(
                    evs.drop_first(),
                    if stack.len() == 0 {
                        stack
                    } else {
                        stack.drop_last()
                    },
                    pos,
                    len,
                );
            },
        }
    }
}

/// Reduces a chained event stream to its span list.
///
/// The result is exactly [`reduce_spec`] and covers `[0, len)` with no gaps
/// and no overlaps.
pub fn spans_from_events(evs: &Vec<HighlightEvent>, len: usize) -> (r: Vec<Span>)
    requires
        events_chain(evs@, 0, len as int),
    ensures
        r@ == reduce_spec(evs@, Seq::<Option<HighlightNames>>::empty()),
        spans_cover(r@, len as int),
{
    let mut out: Vec<Span> = Vec::new();
    let mut stack: Vec<Option<HighlightNames>> = Vec::new();
    let mut i: usize = 0;
    proof {
        assert(evs@.skip(0) =~= evs@);
        assert(Seq::<Span>::empty() + reduce_spec(evs@, Seq::<Option<HighlightNames>>::empty())
            =~= reduce_spec(evs@, Seq::<Option<HighlightNames>>::empty()));
    }
    while i < evs.len()
        invariant
            0 <= i <= evs@.len(),
            reduce_spec(evs@, Seq::<Option<HighlightNames>>::empty()) == out@ + reduce_spec(
                evs@.skip(i as int),
                stack@,
            ),
        decreases evs@.len() - i,
    {
        proof {
            assert(evs@.skip(i as int)[0] == evs@[i as int]);
            assert(evs@.skip(i as int).drop_first() =~= evs@.skip(i as int + 1));
        }
        let ghost pre_stack = stack@;
        match evs[i] {
            HighlightEvent::Source { start, end } => {
                let cat = if stack.len() == 0 {
                    None
                } else {
                    stack[stack.len() - 1]
                };
                proof {
                    assert(cat == innermost(pre_stack));
                }
                out.push((start, end, cat));
                proof {
                    assert(out@ + reduce_spec(evs@.skip(i as int + 1), stack@) =~= out@.drop_last()
                        + (seq![(evs@[i as int]->Source_start, evs@[i as int]->Source_end, cat)]
                        + reduce_spec(evs@.skip(i as int + 1), stack@)));
                }
            },
            HighlightEvent::HighlightStart(s) => {
                stack.push(HighlightNames::from_index(s));
            },
            HighlightEvent::HighlightEnd => {
                if stack.len() > 0 {
                    stack.pop();
                    proof {
                        assert(stack@ =~= pre_stack.drop_last());
                    }
                }
            },
        }
        i = i + 1;
    }
    proof {
        assert(evs@.skip(evs@.len() as int) =~= Seq::<HighlightEvent>::empty());
        assert(out@ + Seq::<Span>::empty() =~= out@);
        lemma_reduce_chain(evs@, Seq::<Option<HighlightNames>>::empty(), 0, len as int);
        lemma_spans_chain_cover(
            reduce_spec(evs@, Seq::<Option<HighlightNames>>::empty()),
            0,
            len as int,
        );
    }
    out
}

#[verifier::external_type_specification]
#[verifier::external_body]
pub struct ExHighlightConfiguration(tree_sitter_highlight::HighlightConfiguration);

/// The event stream the tokenizer emits for a language's grammar over the
/// given source bytes.
pub uninterp spec fn events_of(lang: Language, source: Seq<u8>) -> Seq<HighlightEvent>;

/// Relies on `tree_sitter_highlight::Highlighter::highlight`: runs the
/// grammar-driven tokenizer over `source` and collects its event stream,
/// with byte offsets into `source`. The grammar configuration is built by
/// this module for `config.language`, always with the same queries and
/// category names, and each call uses a fresh parser, so the stream is a
/// function of the language and the source alone; `events_of` names it.
/// Returns `None` when highlighting reports an error; nothing more is
/// assumed, and the stream is validated before use.
#[verifier::external_body]
fn run_highlight_events(config: &Config, source: &Vec<u8>) -> (r: Option<Vec<HighlightEvent>>)
    ensures
        r matches Some(evs) ==> evs@ == events_of(config.language, source@),
{
    let mut highlighter = tree_sitter_highlight::Highlighter::new();
    let iter = match highlighter.highlight(&config.config, source, None, None, |_| None) {
        Ok(it) => it,
        Err(_) => return None,
    };
    iter.map(|ev| match ev {
        Ok(tree_sitter_highlight::HighlightEvent::Source { start, end }) =>
            Some(HighlightEvent::Source { start, end }),
        Ok(tree_sitter_highlight::HighlightEvent::HighlightStart(h)) =>
            Some(HighlightEvent::HighlightStart(h.0)),
        Ok(tree_sitter_highlight::HighlightEvent::HighlightEnd) => Some(HighlightEvent::HighlightEnd),
        Err(_) => None,
    }).collect()
}

/// Relies on `tree_sitter_cpp` and
/// `tree_sitter_highlight::HighlightConfiguration::new` / `configure`:
/// builds a highlighting configuration for the C++ grammar, recognizing
/// the given category names, so that a reported index denotes a position in
/// that list. Construction succeeds: the highlight queries are shipped by
/// the grammar crate for its own grammar and compile against it, which the
/// crate's tests exercise.
#[verifier::external_body]
fn config_cpp(names: &Vec<&'static str>) -> (r: Option<
    tree_sitter_highlight::HighlightConfiguration,
>)
    ensures
        r is Some,
{
    let mut c = tree_sitter_highlight::HighlightConfiguration::new(
        tree_sitter_cpp::LANGUAGE.into(),
        "cpp",
        tree_sitter_cpp::HIGHLIGHT_QUERY,
        "",
        "",
    ).ok()?;
    c.configure(names);
    Some(c)
}

/// Relies on `tree_sitter_java` and
/// `tree_sitter_highlight::HighlightConfiguration::new` / `configure`:
/// builds a highlighting configuration for the Java grammar, recognizing
/// the given category names, so that a reported index denotes a position in
/// that list. Construction succeeds: the highlight queries are shipped by
/// the grammar crate for its own grammar and compile against it, which the
/// crate's tests exercise.
#[verifier::external_body]
fn config_java(names: &Vec<&'static str>) -> (r: Option<
    tree_sitter_highlight::HighlightConfiguration,
>)
    ensures
        r is Some,
{
    let mut c = tree_sitter_highlight::HighlightConfiguration::new(
        tree_sitter_java::LANGUAGE.into(),
        "java",
        tree_sitter_java::HIGHLIGHTS_QUERY,
        "",
        "",
    ).ok()?;
    c.configure(names);
    Some(c)
}

/// Relies on `tree_sitter_javascript` and
/// `tree_sitter_highlight::HighlightConfiguration::new` / `configure`:
/// builds a highlighting configuration for the JavaScript grammar, recognizing
/// the given category names, so that a reported index denotes a position in
/// that list. Construction succeeds: the highlight queries are shipped by
/// the grammar crate for its own grammar and compile against it, which the
/// crate's tests exercise.
#[verifier::external_body]
fn config_javascript(names: &Vec<&'static str>) -> (r: Option<
    tree_sitter_highlight::HighlightConfiguration,
>)
    ensures
        r is Some,
{
    let mut c = tree_sitter_highlight::HighlightConfiguration::new(
        tree_sitter_javascript::LANGUAGE.into(),
        "javascript",
        tree_sitter_javascript::HIGHLIGHT_QUERY,
        tree_sitter_javascript::INJECTIONS_QUERY,
        tree_sitter_javascript::LOCALS_QUERY,
    ).ok()?;
    c.configure(names);
    Some(c)
}

/// Relies on `tree_sitter_javascript` and
/// `tree_sitter_highlight::HighlightConfiguration::new` / `configure`:
/// builds a highlighting configuration for the JavaScript grammar with JSX highlights, recognizing
/// the given category names, so that a reported index denotes a position in
/// that list. Construction succeeds: the highlight queries are shipped by
/// the grammar crate for its own grammar and compile against it, which the
/// crate's tests exercise.
#[verifier::external_body]
fn config_jsx(names: &Vec<&'static str>) -> (r: Option<
    tree_sitter_highlight::HighlightConfiguration,
>)
    ensures
        r is Some,
{
    let mut c = tree_sitter_highlight::HighlightConfiguration::new(
        tree_sitter_javascript::LANGUAGE.into(),
        "jsx",
        tree_sitter_javascript::JSX_HIGHLIGHT_QUERY,
        tree_sitter_javascript::INJECTIONS_QUERY,
        tree_sitter_javascript::LOCALS_QUERY,
    ).ok()?;
    c.configure(names);
    Some(c)
}

/// Relies on `tree_sitter_ocaml` and
/// `tree_sitter_highlight::HighlightConfiguration::new` / `configure`:
/// builds a highlighting configuration for the OCaml grammar, recognizing
/// the given category names, so that a reported index denotes a position in
/// that list. Construction succeeds: the highlight queries are shipped by
/// the grammar crate for its own grammar and compile against it, which the
/// crate's tests exercise.
#[verifier::external_body]
fn config_ocaml(names: &Vec<&'static str>) -> (r: Option<
    tree_sitter_highlight::HighlightConfiguration,
>)
    ensures
        r is Some,
{
    let mut c = tree_sitter_highlight::HighlightConfiguration::new(
        tree_sitter_ocaml::LANGUAGE_OCAML.into(),
        "ocaml",
        tree_sitter_ocaml::HIGHLIGHTS_QUERY,
        "",
        tree_sitter_ocaml::LOCALS_QUERY,
    ).ok()?;
    c.configure(names);
    Some(c)
}

/// Relies on `tree_sitter_ocaml` and
/// `tree_sitter_highlight::HighlightConfiguration::new` / `configure`:
/// builds a highlighting configuration for the OCaml interface grammar, recognizing
/// the given category names, so that a reported index denotes a position in
/// that list. Construction succeeds: the highlight queries are shipped by
/// the grammar crate for its own grammar and compile against it, which the
/// crate's tests exercise.
#[verifier::external_body]
fn config_ocaml_interface(names: &Vec<&'static str>) -> (r: Option<
    tree_sitter_highlight::HighlightConfiguration,
>)
    ensures
        r is Some,
{
    let mut c = tree_sitter_highlight::HighlightConfiguration::new(
        tree_sitter_ocaml::LANGUAGE_OCAML_INTERFACE.into(),
        "ocaml_interface",
        tree_sitter_ocaml::HIGHLIGHTS_QUERY,
        "",
        tree_sitter_ocaml::LOCALS_QUERY,
    ).ok()?;
    c.configure(names);
    Some(c)
}

/// Relies on `tree_sitter_python` and
/// `tree_sitter_highlight::HighlightConfiguration::new` / `configure`:
/// builds a highlighting configuration for the Python grammar, recognizing
/// the given category names, so that a reported index denotes a position in
/// that list. Construction succeeds: the highlight queries are shipped by
/// the grammar crate for its own grammar and compile against it, which the
/// crate's tests exercise.
#[verifier::external_body]
fn config_python(names: &Vec<&'static str>) -> (r: Option<
    tree_sitter_highlight::HighlightConfiguration,
>)
    ensures
        r is Some,
{
    let mut c = tree_sitter_highlight::HighlightConfiguration::new(
        tree_sitter_python::LANGUAGE.into(),
        "python",
        tree_sitter_python::HIGHLIGHTS_QUERY,
        "",
        "",
    ).ok()?;
    c.configure(names);
    Some(c)
}

/// Relies on `tree_sitter_rust` and
/// `tree_sitter_highlight::HighlightConfiguration::new` / `configure`:
/// builds a highlighting configuration for the Rust grammar, recognizing
/// the given category names, so that a reported index denotes a position in
/// that list. Construction succeeds: the highlight queries are shipped by
/// the grammar crate for its own grammar and compile against it, which the
/// crate's tests exercise.
#[verifier::external_body]
fn config_rust(names: &Vec<&'static str>) -> (r: Option<
    tree_sitter_highlight::HighlightConfiguration,
>)
    ensures
        r is Some,
{
    let mut c = tree_sitter_highlight::HighlightConfiguration::new(
        tree_sitter_rust::LANGUAGE.into(),
        "rust",
        tree_sitter_rust::HIGHLIGHTS_QUERY,
        "",
        "",
    ).ok()?;
    c.configure(names);
    Some(c)
}

/// Relies on `tree_sitter_typescript` and
/// `tree_sitter_highlight::HighlightConfiguration::new` / `configure`:
/// builds a highlighting configuration for the TypeScript grammar, recognizing
/// the given category names, so that a reported index denotes a position in
/// that list. Construction succeeds: the highlight queries are shipped by
/// the grammar crate for its own grammar and compile against it, which the
/// crate's tests exercise.
#[verifier::external_body]
fn config_typescript(names: &Vec<&'static str>) -> (r: Option<
    tree_sitter_highlight::HighlightConfiguration,
>)
    ensures
        r is Some,
{
    let mut c = tree_sitter_highlight::HighlightConfiguration::new(
        tree_sitter_typescript::LANGUAGE_TYPESCRIPT.into(),
        "typescript",
        tree_sitter_typescript::HIGHLIGHTS_QUERY,
        "",
        tree_sitter_typescript::LOCALS_QUERY,
    ).ok()?;
    c.configure(names);
    Some(c)
}

/// Relies on `tree_sitter_typescript` and
/// `tree_sitter_highlight::HighlightConfiguration::new` / `configure`:
/// builds a highlighting configuration for the TSX grammar, recognizing
/// the given category names, so that a reported index denotes a position in
/// that list. Construction succeeds: the highlight queries are shipped by
/// the grammar crate for its own grammar and compile against it, which the
/// crate's tests exercise.
#[verifier::external_body]
fn config_tsx(names: &Vec<&'static str>) -> (r: Option<
    tree_sitter_highlight::HighlightConfiguration,
>)
    ensures
        r is Some,
{
    let mut c = tree_sitter_highlight::HighlightConfiguration::new(
        tree_sitter_typescript::LANGUAGE_TSX.into(),
        "tsx",
        tree_sitter_typescript::HIGHLIGHTS_QUERY,
        "",
        tree_sitter_typescript::LOCALS_QUERY,
    ).ok()?;
    c.configure(names);
    Some(c)
}
/// `b` is `a` with source byte offsets translated to character offsets of
/// `s`; scope events pass through unchanged.
pub open spec fn event_char_mapped(s: Seq<char>, a: HighlightEvent, b: HighlightEvent) -> bool {
    match a {
        HighlightEvent::Source { start, end } => b == (HighlightEvent::Source {
            start: char_of_byte(s, start as int) as usize,
            end: char_of_byte(s, end as int) as usize,
        }),
        _ => b == a,
    }
}

/// An event stream with each source run's byte offsets translated to
/// character offsets of `s`.
pub open spec fn map_events_to_chars(s: Seq<char>, evs: Seq<HighlightEvent>) -> Seq<
    HighlightEvent,
> {
    evs.map(
        |i: int, ev: HighlightEvent|
            match ev {
                HighlightEvent::Source { start, end } => HighlightEvent::Source {
                    start: char_of_byte(s, start as int) as usize,
                    end: char_of_byte(s, end as int) as usize,
                },
                _ => ev,
            },
    )
}

/// Translating a byte-offset chain to character offsets yields a chain over
/// the character count.
proof fn lemma_chain_maps(
    s: Seq<char>,
    evs: Seq<HighlightEvent>,
    mapped: Seq<HighlightEvent>,
    pos: int,
)
    requires
        0 <= pos,
        s.len() <= usize::MAX,
        events_chain(evs, pos, utf8_len(s)),
        mapped.len() == evs.len(),
        forall|i: int| 0 <= i < evs.len() ==> event_char_mapped(s, evs[i], #[trigger] mapped[i]),
    ensures
        events_chain(mapped, char_of_byte(s, pos), s.len() as int),
    decreases evs.len(),
{
    lemma_char_of_byte_bounds(s, pos);
    if evs.len() == 0 {
        lemma_utf8_len_bounds(s);
        lemma_char_of_byte_bounds(s, utf8_len(s));
    } else {
        assert(event_char_mapped(s, evs[0], mapped[0]));
        assert forall|i: int| 0 <= i < evs.drop_first().len() implies event_char_mapped(
            s,
            evs.drop_first()[i],
            #[trigger] mapped.drop_first()[i],
        ) by {
            assert(evs.drop_first()[i] == evs[i + 1]);
            assert(mapped.drop_first()[i] == mapped[i + 1]);
        }
        match evs[0] {
            HighlightEvent::Source { start, end } => {
                lemma_char_of_byte_monotone(s, start as int, end as int);
                lemma_char_of_byte_bounds(s, end as int);
                lemma_utf8_len_bounds(s);
                lemma_char_of_byte_monotone(s, end as int, utf8_len(s));
                lemma_char_of_byte_bounds(s, utf8_len(s));
                lemma_chain_maps(s, evs.drop_first(), mapped.drop_first(), end as int);
            },
            _ => {
                lemma_chain_maps(s, evs.drop_first(), mapped.drop_first(), pos);
            },
        }
    }
}

/// Translates a byte-offset event stream into character offsets of the
/// buffer's text.
fn events_to_char_offsets(buffer: &TextBuffer, evs: &Vec<HighlightEvent>) -> (r: Vec<
    HighlightEvent,
>)
    requires
        events_chain(evs@, 0, utf8_len(buffer.text())),
    ensures
        events_chain(r@, 0, buffer.text().len() as int),
        r@ == map_events_to_chars(buffer.text(), evs@),
{
    let mut out: Vec<HighlightEvent> = Vec::new();
    let mut i: usize = 0;
    let ghost s = buffer.text();
    let total = buffer.len_chars();
    assert(s.len() == total);
    proof {
        lemma_events_chain_offsets(evs@, 0, utf8_len(s));
    }
    while i < evs.len()
        invariant
            0 <= i <= evs@.len(),
            out@.len() == i,
            buffer.text() == s,
            events_chain(evs@, 0, utf8_len(s)),
            forall|j: int|
                0 <= j < evs@.len() ==> event_in_bounds(#[trigger] evs@[j], utf8_len(s)),
            forall|j: int| 0 <= j < i ==> event_char_mapped(s, evs@[j], #[trigger] out@[j]),
        decreases evs@.len() - i,
    {
        match evs[i] {
            HighlightEvent::Source { start, end } => {
                let cs = buffer.byte_to_char(start);
                let ce = buffer.byte_to_char(end);
                out.push(HighlightEvent::Source { start: cs, end: ce });
            },
            HighlightEvent::HighlightStart(h) => {
                out.push(HighlightEvent::HighlightStart(h));
            },
            HighlightEvent::HighlightEnd => {
                out.push(HighlightEvent::HighlightEnd);
            },
        }
        i = i + 1;
    }
    proof {
        lemma_char_of_byte_bounds(s, 0);
        lemma_chain_maps(s, evs@, out@, 0);
        assert(out@ =~= map_events_to_chars(s, evs@));
    }
    out
}

/// A source event keeps its offsets within `len`.
pub open spec fn event_in_bounds(ev: HighlightEvent, len: int) -> bool {
    match ev {
        HighlightEvent::Source { start, end } => 0 <= start <= end <= len,
        _ => true,
    }
}

/// Every source event of a chain stays within the chain's end.
proof fn lemma_events_chain_offsets(evs: Seq<HighlightEvent>, pos: int, len: int)
    requires
        0 <= pos,
        events_chain(evs, pos, len),
    ensures
        forall|j: int| 0 <= j < evs.len() ==> event_in_bounds(#[trigger] evs[j], len),
    decreases evs.len(),
{
    if evs.len() > 0 {
        match evs[0] {
            HighlightEvent::Source { start, end } => {
                lemma_events_chain_offsets(evs.drop_first(), end as int, len);
            },
            _ => {
                lemma_events_chain_offsets(evs.drop_first(), pos, len);
            },
        }
        assert forall|j: int| 0 <= j < evs.len() implies event_in_bounds(
            #[trigger] evs[j],
            len,
        ) by {
            if j > 0 {
                assert(evs.drop_first()[j - 1] == evs[j]);
            }
        }
    }
}

/// A language whose grammar the editor can highlight, keyed by the file
/// extension it is selected from.
#[derive(Clone, Copy, Debug, PartialEq, Eq, Structural)]
pub enum Language {
    Cpp,
    Java,
    Javascript,
    Jsx,
    Ocaml,
    OcamlInterface,
    Python,
    Rust,
    Typescript,
    Tsx,
}

/// Which language a file extension selects, if any.
pub open spec fn language_spec(ext: Seq<char>) -> Option<Language> {
    if ext == "cpp"@ || ext == "cxx"@ || ext == "cc"@ {
        Some(Language::Cpp)
    } else if ext == "java"@ {
        Some(Language::Java)
    } else if ext == "js"@ || ext == "cjs"@ || ext == "mjs"@ {
        Some(Language::Javascript)
    } else if ext == "jsx"@ {
        Some(Language::Jsx)
    } else if ext == "ml"@ {
        Some(Language::Ocaml)
    } else if ext == "mli"@ {
        Some(Language::OcamlInterface)
    } else if ext == "py"@ {
        Some(Language::Python)
    } else if ext == "rs"@ {
        Some(Language::Rust)
    } else if ext == "ts"@ {
        Some(Language::Typescript)
    } else if ext == "tsx"@ {
        Some(Language::Tsx)
    } else {
        None
    }
}

/// Maps a file extension to the language it selects.
pub fn language_for_extension(ext: &str) -> (r: Option<Language>)
    ensures
        r == language_spec(ext@),
{
    let e = ext.to_owned();
    if e == String::from_str("cpp") || e == String::from_str("cxx") || e == String::from_str("cc") {
        Some(Language::Cpp)
    } else if e == String::from_str("java") {
        Some(Language::Java)
    } else if e == String::from_str("js") || e == String::from_str("cjs") || e == String::from_str(
        "mjs",
    ) {
        Some(Language::Javascript)
    } else if e == String::from_str("jsx") {
        Some(Language::Jsx)
    } else if e == String::from_str("ml") {
        Some(Language::Ocaml)
    } else if e == String::from_str("mli") {
        Some(Language::OcamlInterface)
    } else if e == String::from_str("py") {
        Some(Language::Python)
    } else if e == String::from_str("rs") {
        Some(Language::Rust)
    } else if e == String::from_str("ts") {
        Some(Language::Typescript)
    } else if e == String::from_str("tsx") {
        Some(Language::Tsx)
    } else {
        None
    }
}

/// The degraded span list: one unclassified span over the whole buffer.
pub open spec fn fallback_spans(len: int) -> Seq<Span> {
    seq![(0usize, len as usize, None::<HighlightNames>)]
}

/// A highlighting configuration for one buffer: the language, its compiled
/// grammar, and the current span list.
pub struct Config {
    config: tree_sitter_highlight::HighlightConfiguration,
    language: Language,
    /// Classified character ranges: start, end, and category.
    pub highlights: Vec<Span>,
}

impl Config {
    /// The language this configuration highlights.
    pub closed spec fn lang(self) -> Language {
        self.language
    }

    /// The language this configuration highlights.
    pub fn language(&self) -> (r: Language)
        ensures
            r == self.lang(),
    {
        self.language
    }

    /// The current span list.
    pub closed spec fn spans(self) -> Seq<Span> {
        self.highlights@
    }

    /// The current span list.
    pub fn spans_ref(&self) -> (r: &Vec<Span>)
        ensures
            r@ == self.spans(),
    {
        &self.highlights
    }

    /// Re-derives the span list from the whole buffer.
    ///
    /// Whatever the tokenizer reports, the resulting spans are contiguous,
    /// start at zero, and end exactly at the buffer length. When the
    /// tokenizer's stream chains over the buffer, the spans are its proved
    /// reduction in character offsets; a stream that does not chain — and a
    /// tokenizer error, which is why the reduction is only one of the two
    /// permitted outcomes on a valid stream — yields one unclassified span.
    pub fn generate(&mut self, buffer: &TextBuffer)
        ensures
            spans_cover(final (self).spans(), buffer.text().len() as int),
            final (self).lang() == old(self).lang(),
            ({
                let evs = events_of(
                    old(self).lang(),
                    vstd::utf8::encode_utf8(buffer.text()),
                );
                &&& (events_chain(evs, 0, utf8_len(buffer.text())) ==> (final (self).spans()
                    == reduce_spec(
                    map_events_to_chars(buffer.text(), evs),
                    Seq::<Option<HighlightNames>>::empty(),
                ) || final (self).spans() == fallback_spans(buffer.text().len() as int)))
                &&& (!events_chain(evs, 0, utf8_len(buffer.text())) ==> final (self).spans()
                    == fallback_spans(buffer.text().len() as int))
            }),
    {
        let source = buffer.bytes();
        let n_bytes = source.len();
        let total = buffer.len_chars();
        if let Some(evs) = run_highlight_events(self, &source) {
            if validate_events(&evs, n_bytes) {
                let char_evs = events_to_char_offsets(buffer, &evs);
                self.highlights = spans_from_events(&char_evs, total);
                return ;
            }
        }
        let mut fallback: Vec<Span> = Vec::new();
        fallback.push((0, total, None));
        self.highlights = fallback;
        proof {
            assert(self.highlights@ =~= fallback_spans(buffer.text().len() as int));
        }
    }
}

/// Builds the highlighting configuration a file extension selects, with an
/// empty span list; `None` exactly when the extension selects no grammar —
/// the unsupported-language degraded mode.
pub fn config_from_extension(ext: Option<&str>) -> (r: Option<Config>)
    ensures
        match ext {
            None => r is None,
            Some(e) => {
                &&& (r is Some) <==> (language_spec(e@) is Some)
                &&& (r matches Some(c) ==> Some(c.lang()) == language_spec(e@))
            },
        },
        r matches Some(c) ==> c.spans().len() == 0,
{
    let e = match ext {
        Some(e) => e,
        None => return None,
    };
    let lang = match language_for_extension(e) {
        Some(l) => l,
        None => return None,
    };
    let names = highlight_names();
    let cfg = match lang {
        Language::Cpp => config_cpp(&names),
        Language::Java => config_java(&names),
        Language::Javascript => config_javascript(&names),
        Language::Jsx => config_jsx(&names),
        Language::Ocaml => config_ocaml(&names),
        Language::OcamlInterface => config_ocaml_interface(&names),
        Language::Python => config_python(&names),
        Language::Rust => config_rust(&names),
        Language::Typescript => config_typescript(&names),
        Language::Tsx => config_tsx(&names),
    };
    match cfg {
        Some(c) => Some(Config { config: c, language: lang, highlights: Vec::new() }),
        None => None,
    }
}

} // verus!
