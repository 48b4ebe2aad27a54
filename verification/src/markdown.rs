//! Markdown in help text: bold, italic and inline code become terminal styles, other markup
//! is dropped and its text kept.

use vstd::prelude::*;
use pulldown_cmark::{Event, Tag, TagEnd};

verus! {

/// The escape codes that switch a style on before a run of text and off after it.
pub struct StyleCodes {
    pub prefix: String,
    pub suffix: String,
}

/// The styles a markdown run can take, by whether it is inline code and whether it sits
/// inside bold and italic markup. `None` where the combined style is the unstyled one.
pub struct MarkdownTheme {
    pub text_bold: Option<StyleCodes>,
    pub text_italic: Option<StyleCodes>,
    pub text_bold_italic: Option<StyleCodes>,
    pub code: Option<StyleCodes>,
    pub code_bold: Option<StyleCodes>,
    pub code_italic: Option<StyleCodes>,
    pub code_bold_italic: Option<StyleCodes>,
}

impl MarkdownTheme {
    /// The style of a run: inline code or not, inside bold markup or not, inside italic markup
    /// or not.
    pub open spec fn style_of(&self, code: bool, bold: bool, italic: bool) -> Option<StyleCodes> {
        if code {
            if bold && italic {
                self.code_bold_italic
            } else if bold {
                self.code_bold
            } else if italic {
                self.code_italic
            } else {
                self.code
            }
        } else {
            if bold && italic {
                self.text_bold_italic
            } else if bold {
                self.text_bold
            } else if italic {
                self.text_italic
            } else {
                None
            }
        }
    }

    fn pick(&self, code: bool, bold: bool, italic: bool) -> (r: &Option<StyleCodes>)
        ensures
            *r == self.style_of(code, bold, italic),
    {
        if code {
            if bold && italic {
                &self.code_bold_italic
            } else if bold {
                &self.code_bold
            } else if italic {
                &self.code_italic
            } else {
                &self.code
            }
        } else if bold && italic {
            &self.text_bold_italic
        } else if bold {
            &self.text_bold
        } else if italic {
            &self.text_italic
        } else {
            &None
        }
    }
}

/// One markdown event, as far as help text cares.
pub enum MdEvent {
    StrongStart,
    StrongEnd,
    EmphasisStart,
    EmphasisEnd,
    Text(String),
    Code(String),
    SoftBreak,
    HardBreak,
    /// Any other markup: it is dropped, the text inside it still arrives as `Text`.
    Other,
}

/// What an event carries, as plain values.
pub enum MdEventView {
    StrongStart,
    StrongEnd,
    EmphasisStart,
    EmphasisEnd,
    Text(Seq<char>),
    Code(Seq<char>),
    SoftBreak,
    HardBreak,
    Other,
}

impl View for MdEvent {
    type V = MdEventView;

    open spec fn view(&self) -> MdEventView {
        match self {
            MdEvent::StrongStart => MdEventView::StrongStart,
            MdEvent::StrongEnd => MdEventView::StrongEnd,
            MdEvent::EmphasisStart => MdEventView::EmphasisStart,
            MdEvent::EmphasisEnd => MdEventView::EmphasisEnd,
            MdEvent::Text(t) => MdEventView::Text(t@),
            MdEvent::Code(c) => MdEventView::Code(c@),
            MdEvent::SoftBreak => MdEventView::SoftBreak,
            MdEvent::HardBreak => MdEventView::HardBreak,
            MdEvent::Other => MdEventView::Other,
        }
    }
}

/// The events pulldown-cmark's parser yields for `text`, with default options.
pub uninterp spec fn markdown_events(text: Seq<char>) -> Seq<MdEventView>;

/// Parses `text` with `pulldown_cmark::Parser::new` and keeps, of each event, what help text
/// needs. Trusted: the events are taken to be pulldown-cmark's for the same text, named by
/// `markdown_events`; nothing is stated about what that parser yields.
#[verifier::external_body]
fn parse_markdown(text: &str) -> (events: Vec<MdEvent>)
    ensures
        events@.map_values(|e: MdEvent| e@) == markdown_events(text@),
{
    pulldown_cmark::Parser::new(text).map(|event| match event {
        Event::Start(Tag::Strong) => MdEvent::StrongStart,
        Event::End(TagEnd::Strong) => MdEvent::StrongEnd,
        Event::Start(Tag::Emphasis) => MdEvent::EmphasisStart,
        Event::End(TagEnd::Emphasis) => MdEvent::EmphasisEnd,
        Event::Text(text) => MdEvent::Text(text.to_string()),
        Event::Code(code) => MdEvent::Code(code.to_string()),
        Event::SoftBreak => MdEvent::SoftBreak,
        Event::HardBreak => MdEvent::HardBreak,
        _ => MdEvent::Other,
    }).collect()
}

/// How deeply bold and italic markup is open after `events`; a close without an open stays
/// at zero.
pub open spec fn nesting(events: Seq<MdEventView>) -> (usize, usize)
    decreases events.len(),
{
    if events.len() == 0 {
        (0, 0)
    } else {
        let (strong, emphasis) = nesting(events.drop_last());
        match events.last() {
            MdEventView::StrongStart => (strong.saturating_add(1), emphasis),
            MdEventView::StrongEnd => (strong.saturating_sub(1), emphasis),
            MdEventView::EmphasisStart => (strong, emphasis.saturating_add(1)),
            MdEventView::EmphasisEnd => (strong, emphasis.saturating_sub(1)),
            _ => (strong, emphasis),
        }
    }
}

/// A run of text in `style`: the text alone when unstyled.
pub open spec fn styled(style: Option<StyleCodes>, text: Seq<char>) -> Seq<char> {
    match style {
        Some(codes) => codes.prefix@ + text + codes.suffix@,
        None => text,
    }
}

/// What one event writes, given the nesting before it.
pub open spec fn event_output(theme: MarkdownTheme, event: MdEventView, strong: usize, emphasis: usize) -> Seq<char> {
    match event {
        MdEventView::Text(t) => styled(theme.style_of(false, strong > 0, emphasis > 0), t),
        MdEventView::Code(c) => styled(theme.style_of(true, strong > 0, emphasis > 0), c),
        MdEventView::SoftBreak => seq![' '],
        MdEventView::HardBreak => seq![' '],
        _ => Seq::empty(),
    }
}

/// A run of text or inline code takes the theme's style named for exactly the markup open around
/// it: bold for open strong markup, italic for open emphasis, code for inline code; plain text
/// outside both is written unstyled, and a line break is one space.
pub proof fn law_styles_by_markup(theme: MarkdownTheme, t: Seq<char>, strong: usize, emphasis: usize)
    ensures
        strong == 0 && emphasis == 0 ==> event_output(theme, MdEventView::Text(t), strong, emphasis) == t,
        strong > 0 && emphasis == 0 ==> event_output(theme, MdEventView::Text(t), strong, emphasis) == styled(theme.text_bold, t),
        strong == 0 && emphasis > 0 ==> event_output(theme, MdEventView::Text(t), strong, emphasis) == styled(theme.text_italic, t),
        strong > 0 && emphasis > 0 ==> event_output(theme, MdEventView::Text(t), strong, emphasis) == styled(theme.text_bold_italic, t),
        strong == 0 && emphasis == 0 ==> event_output(theme, MdEventView::Code(t), strong, emphasis) == styled(theme.code, t),
        strong > 0 && emphasis == 0 ==> event_output(theme, MdEventView::Code(t), strong, emphasis) == styled(theme.code_bold, t),
        strong == 0 && emphasis > 0 ==> event_output(theme, MdEventView::Code(t), strong, emphasis) == styled(theme.code_italic, t),
        strong > 0 && emphasis > 0 ==> event_output(theme, MdEventView::Code(t), strong, emphasis) == styled(theme.code_bold_italic, t),
        event_output(theme, MdEventView::SoftBreak, strong, emphasis) == seq![' '],
        event_output(theme, MdEventView::HardBreak, strong, emphasis) == seq![' '],
{
}

/// Opening strong or emphasis markup raises its depth by one and closing lowers it, never
/// below zero; other events leave both depths as they were.
pub proof fn law_nesting_steps(events: Seq<MdEventView>, e: MdEventView)
    ensures
        ({
            let (s, m) = nesting(events);
            let (s2, m2) = nesting(events.push(e));
            &&& e is StrongStart ==> s2 == if s < usize::MAX { s + 1 } else { s as int } && m2 == m
            &&& e is StrongEnd ==> s2 == if s > 0 { s - 1 } else { 0 } && m2 == m
            &&& e is EmphasisStart ==> m2 == if m < usize::MAX { m + 1 } else { m as int } && s2 == s
            &&& e is EmphasisEnd ==> m2 == if m > 0 { m - 1 } else { 0 } && s2 == s
            &&& !(e is StrongStart || e is StrongEnd || e is EmphasisStart || e is EmphasisEnd) ==> s2 == s && m2 == m
        }),
{
    assert(events.push(e).drop_last() =~= events);
}

/// The styled text of `events`.
pub open spec fn render_events(theme: MarkdownTheme, events: Seq<MdEventView>) -> Seq<char>
    decreases events.len(),
{
    if events.len() == 0 {
        Seq::empty()
    } else {
        let (strong, emphasis) = nesting(events.drop_last());
        render_events(theme, events.drop_last()) + event_output(theme, events.last(), strong, emphasis)
    }
}

/// The styled text of the markdown `text`.
pub open spec fn render_markdown(theme: MarkdownTheme, text: Seq<char>) -> Seq<char> {
    render_events(theme, markdown_events(text))
}

/// Write `text` in `style`.
fn push_styled(out: &mut String, style: &Option<StyleCodes>, text: &str)
    ensures
        final(out)@ == old(out)@ + styled(*style, text@),
{
    match style {
        Some(codes) => {
            out.append(codes.prefix.as_str());
            out.append(text);
            out.append(codes.suffix.as_str());
        },
        None => out.append(text),
    }
}

impl MarkdownTheme {
    /// Write the styled text of `events` to `out`: strong and emphasized runs and inline code
    /// in their styles, a space for each line break, nothing for other markup.
    pub fn write_events(&self, out: &mut String, events: &Vec<MdEvent>)
        ensures
            final(out)@ == old(out)@ + render_events(*self, events@.map_values(|e: MdEvent| e@)),
    {
        let ghost evs = events@.map_values(|e: MdEvent| e@);
        let mut strong: usize = 0;
        let mut emphasis: usize = 0;
        let mut i: usize = 0;
        while i < events.len()
            invariant
                i <= events@.len(),
                evs == events@.map_values(|e: MdEvent| e@),
                (strong, emphasis) == nesting(evs.subrange(0, i as int)),
                out@ == old(out)@ + render_events(*self, evs.subrange(0, i as int)),
            decreases events@.len() - i,
        {
            let ghost before = evs.subrange(0, i as int);
            assert(evs.subrange(0, i + 1).drop_last() =~= before);
            assert(evs.subrange(0, i + 1).last() == events@[i as int]@);
            match &events[i] {
                MdEvent::StrongStart => strong = strong.saturating_add(1),
                MdEvent::StrongEnd => strong = strong.saturating_sub(1),
                MdEvent::EmphasisStart => emphasis = emphasis.saturating_add(1),
                MdEvent::EmphasisEnd => emphasis = emphasis.saturating_sub(1),
                MdEvent::Text(t) => push_styled(out, self.pick(false, strong > 0, emphasis > 0), t.as_str()),
                MdEvent::Code(c) => push_styled(out, self.pick(true, strong > 0, emphasis > 0), c.as_str()),
                MdEvent::SoftBreak | MdEvent::HardBreak => {
                    out.append(" ");
                    proof {
                        reveal_strlit(" ");
                    }
                },
                MdEvent::Other => {},
            }
            i = i + 1;
        }
        assert(evs.subrange(0, i as int) =~= evs);
    }

    /// Write the markdown `text` to `out`, with strong and emphasized runs and inline code in
    /// their styles.
    pub fn render_str(&self, out: &mut String, text: &str)
        ensures
            final(out)@ == old(out)@ + render_markdown(*self, text@),
    {
        let events = parse_markdown(text);
        self.write_events(out, &events);
    }
}

} // verus!
