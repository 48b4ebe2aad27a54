//! The categorized help listing: headings, aligned rows, and the help template around them.

use vstd::prelude::*;
use unicode_width::UnicodeWidthStr;
use crate::category::{Category, CommandCategoryMap};
use crate::markdown::{render_markdown, MarkdownTheme, StyleCodes};
use crate::menu::{key_of, law_visible_is_the_unhidden, members, owned_category, menu_categories, visible, Menu, Subcommand};
use crate::text::{push_spaces, spaces};

verus! {

/// The displayed width of `text` in terminal columns, as unicode-width computes it.
pub uninterp spec fn display_width(text: Seq<char>) -> usize;

/// `UnicodeWidthStr::width` from unicode-width. Trusted: the result is taken to be that
/// function's value for the same characters, named by `display_width`; its rules (East Asian
/// width, emoji sequences) are not stated.
#[verifier::external_body]
pub(crate) fn width_of(text: &str) -> (width: usize)
    ensures
        width == display_width(text@),
{
    text.width()
}

/// The command's styles that the listing uses.
pub struct MenuStyles {
    /// Category headings.
    pub header: StyleCodes,
    /// Command names.
    pub literal: StyleCodes,
}

/// The command whose help is rendered: its subcommands and its styles.
pub struct HelpCommand {
    pub subcommands: Vec<Subcommand>,
    pub styles: MenuStyles,
}

/// How help text (a command's about, a category's description) is written.
pub enum TextRenderer {
    /// As given.
    Plain,
    /// As markdown, styled with the theme.
    Markdown(MarkdownTheme),
}

impl TextRenderer {
    /// What the renderer writes for `text`.
    pub open spec fn rendered(&self, text: Seq<char>) -> Seq<char> {
        match self {
            TextRenderer::Plain => text,
            TextRenderer::Markdown(theme) => render_markdown(*theme, text),
        }
    }

    /// Write `text` to `out`.
    pub fn render_str(&self, out: &mut String, text: &str)
        ensures
            final(out)@ == old(out)@ + self.rendered(text@),
    {
        match self {
            TextRenderer::Plain => out.append(text),
            TextRenderer::Markdown(theme) => theme.render_str(out, text),
        }
    }
}

/// `a + b`, capped at `usize::MAX`.
pub open spec fn sat_add(a: usize, b: usize) -> usize {
    if a + b > usize::MAX { usize::MAX } else { (a + b) as usize }
}

/// `a - b`, floored at zero.
pub open spec fn sat_sub(a: usize, b: usize) -> usize {
    if a >= b { (a - b) as usize } else { 0 }
}

/// The largest of `widths`, zero for none.
pub open spec fn widest(widths: Seq<usize>) -> usize
    decreases widths.len(),
{
    if widths.len() == 0 {
        0
    } else {
        let rest = widest(widths.drop_last());
        if widths.last() > rest { widths.last() } else { rest }
    }
}

/// Column positions shared by every section of a menu.
pub struct MenuLayout {
    /// Where a category description starts.
    pub description_col: usize,
    /// The widest command name; abouts are aligned two cells past it.
    pub name_width: usize,
}

/// The layout for the widest name and the widest heading (counted with its colon).
///
/// A description at or next to the about column reads as another row, so it is pushed two
/// cells past it.
pub open spec fn layout_for(name_width: usize, heading_width: usize) -> MenuLayout {
    let about_col = sat_add(name_width, 4);
    let description_col = sat_add(heading_width, 2);
    let near = if description_col >= about_col { description_col - about_col < 2 } else { about_col - description_col < 2 };
    MenuLayout {
        description_col: if near { sat_add(about_col, 2) } else { description_col },
        name_width,
    }
}

/// The widths of `names`.
pub open spec fn name_widths(names: Seq<Seq<char>>) -> Seq<usize> {
    Seq::new(names.len(), |i: int| display_width(names[i]))
}

/// `widths`, each counted with one more cell for a colon.
pub open spec fn with_colon(widths: Seq<usize>) -> Seq<usize> {
    Seq::new(widths.len(), |i: int| sat_add(widths[i], 1))
}

/// The widths of `headings`, each counted with the colon after it.
pub open spec fn heading_widths(headings: Seq<Seq<char>>) -> Seq<usize> {
    with_colon(name_widths(headings))
}

fn widest_of(widths: &Vec<usize>) -> (w: usize)
    ensures
        w == widest(widths@),
{
    let mut best: usize = 0;
    let mut i: usize = 0;
    while i < widths.len()
        invariant
            i <= widths@.len(),
            best == widest(widths@.subrange(0, i as int)),
        decreases widths@.len() - i,
    {
        assert(widths@.subrange(0, i + 1).drop_last() =~= widths@.subrange(0, i as int));
        if widths[i] > best {
            best = widths[i];
        }
        i = i + 1;
    }
    assert(widths@.subrange(0, i as int) =~= widths@);
    best
}

impl MenuLayout {
    /// The layout for names of the displayed widths `name_widths` under headings of the
    /// displayed widths `heading_widths` (without their colons).
    pub fn from_widths(name_widths: &Vec<usize>, heading_widths: &Vec<usize>) -> (layout: MenuLayout)
        ensures
            layout == layout_for(widest(name_widths@), widest(with_colon(heading_widths@))),
    {
        let mut hw: Vec<usize> = Vec::new();
        let mut j: usize = 0;
        while j < heading_widths.len()
            invariant
                j <= heading_widths@.len(),
                hw@ =~= with_colon(heading_widths@).subrange(0, j as int),
            decreases heading_widths@.len() - j,
        {
            hw.push(heading_widths[j].saturating_add(1));
            j = j + 1;
        }
        assert(hw@ =~= with_colon(heading_widths@));
        let name_width = widest_of(name_widths);
        let heading_width = widest_of(&hw);
        let about_col = name_width.saturating_add(4);
        let description_col = heading_width.saturating_add(2);
        let near = if description_col >= about_col {
            description_col - about_col < 2
        } else {
            about_col - description_col < 2
        };
        let description_col = if near { about_col.saturating_add(2) } else { description_col };
        MenuLayout { description_col, name_width }
    }

    /// The layout for a menu listing `names` under `headings`.
    pub fn measure(names: &Vec<&str>, headings: &Vec<&str>) -> (layout: MenuLayout)
        ensures
            layout == layout_for(
                widest(name_widths(names@.map_values(|n: &str| n@))),
                widest(heading_widths(headings@.map_values(|h: &str| h@))),
            ),
    {
        let nw = widths_of(names);
        let hw = widths_of(headings);
        MenuLayout::from_widths(&nw, &hw)
    }
}

/// The displayed widths of `texts`.
fn widths_of(texts: &Vec<&str>) -> (widths: Vec<usize>)
    ensures
        widths@ == name_widths(texts@.map_values(|t: &str| t@)),
{
    let mut widths: Vec<usize> = Vec::new();
    let mut i: usize = 0;
    while i < texts.len()
        invariant
            i <= texts@.len(),
            widths@ =~= name_widths(texts@.map_values(|t: &str| t@)).subrange(0, i as int),
        decreases texts@.len() - i,
    {
        widths.push(width_of(texts[i]));
        i = i + 1;
    }
    assert(widths@ =~= name_widths(texts@.map_values(|t: &str| t@)));
    widths
}

/// `items` joined with `sep` between each two.
pub open spec fn join(items: Seq<Seq<char>>, sep: Seq<char>) -> Seq<char>
    decreases items.len(),
{
    if items.len() == 0 {
        Seq::empty()
    } else if items.len() == 1 {
        items[0]
    } else {
        join(items.drop_last(), sep) + sep + items.last()
    }
}

/// Writes each of `items` to `out`, separated by `sep`.
pub fn write_joined(out: &mut String, items: &Vec<String>, sep: &str)
    ensures
        final(out)@ == old(out)@ + join(items@.map_values(|s: String| s@), sep@),
{
    let ghost all = items@.map_values(|s: String| s@);
    let mut i: usize = 0;
    while i < items.len()
        invariant
            i <= items@.len(),
            all == items@.map_values(|s: String| s@),
            out@ == old(out)@ + join(all.subrange(0, i as int), sep@),
        decreases items@.len() - i,
    {
        assert(all.subrange(0, i + 1).drop_last() =~= all.subrange(0, i as int));
        if i > 0 {
            out.append(sep);
        }
        out.append(items[i].as_str());
        proof {
            if i == 0 {
                assert(all.subrange(0, 1) =~= seq![all[0]]);
            }
        }
        i = i + 1;
    }
    assert(all.subrange(0, i as int) =~= all);
}

/// One subcommand's row: its name, padded to the widest name, then two cells and its about.
pub open spec fn row_text(sub: Subcommand, layout: MenuLayout, styles: MenuStyles, renderer: TextRenderer) -> Seq<char> {
    seq![' ', ' '] + styles.literal.prefix@ + sub.name@ + styles.literal.suffix@
        + spaces(sat_sub(layout.name_width, display_width(sub.name@)) as nat)
        + match sub.about {
            Some(about) => seq![' ', ' '] + renderer.rendered(about@),
            None => Seq::empty(),
        }
}

/// A category's heading with its colon, then its description at the description column.
pub open spec fn heading_text(category: Category, layout: MenuLayout, styles: MenuStyles, renderer: TextRenderer) -> Seq<char> {
    let heading = category.spec_heading();
    styles.header.prefix@ + heading + seq![':'] + styles.header.suffix@
        + match category.description {
            Some(description) => spaces(sat_sub(layout.description_col, sat_add(display_width(heading), 1)) as nat)
                + renderer.rendered(description@),
            None => Seq::empty(),
        }
}

/// The layout of the menu of `cmd` under `map`.
pub open spec fn menu_layout(cmd: HelpCommand, map: CommandCategoryMap) -> MenuLayout {
    layout_for(
        widest(name_widths(visible(cmd.subcommands@).map_values(|s: Subcommand| s.name@))),
        widest(heading_widths(menu_categories(cmd.subcommands@, map@).map_values(|c: Category| c.spec_heading()))),
    )
}

/// A section: its heading line for a category, then one row per member.
pub open spec fn section_text(cmd: HelpCommand, map: CommandCategoryMap, renderer: TextRenderer, category: Option<Category>) -> Seq<char> {
    let layout = menu_layout(cmd, map);
    let rows = members(cmd.subcommands@, map@, key_of(category)).map_values(
        |s: Subcommand| row_text(s, layout, cmd.styles, renderer),
    );
    match category {
        Some(c) => heading_text(c, layout, cmd.styles, renderer) + seq!['\n'] + join(rows, seq!['\n']),
        None => join(rows, seq!['\n']),
    }
}

/// The menu's sections: the uncategorized one first when it has rows, then one per category
/// with a listed member, in first-appearance order.
pub open spec fn menu_sections(cmd: HelpCommand, map: CommandCategoryMap, renderer: TextRenderer) -> Seq<Seq<char>> {
    let categorized = menu_categories(cmd.subcommands@, map@).map_values(
        |c: Category| section_text(cmd, map, renderer, Some(c)),
    );
    if members(cmd.subcommands@, map@, None).len() > 0 {
        seq![section_text(cmd, map, renderer, None)] + categorized
    } else {
        categorized
    }
}

/// The whole listing: the sections, a blank line between each two.
pub open spec fn menu_text(cmd: HelpCommand, map: CommandCategoryMap, renderer: TextRenderer) -> Seq<char> {
    join(menu_sections(cmd, map, renderer), seq!['\n', '\n'])
}

} // verus!

verus! {

/// A command's listing being written: its menu, layout, styles and text renderer.
pub struct MenuView<'a> {
    pub layout: MenuLayout,
    pub menu: Menu<'a>,
    pub cmd: &'a HelpCommand,
    pub renderer: &'a TextRenderer,
}

impl<'a> MenuView<'a> {
    /// The listing of `cmd`'s subcommands under `categories`.
    pub fn new(cmd: &'a HelpCommand, categories: CommandCategoryMap, renderer: &'a TextRenderer) -> (view: Self)
        ensures
            view.cmd == cmd,
            view.renderer == renderer,
            view.menu.category_map == categories,
            view.menu.subcommands == &cmd.subcommands,
            view.layout == menu_layout(*cmd, categories),
    {
        let menu = Menu { category_map: categories, subcommands: &cmd.subcommands };
        let subs = menu.subcommands();
        let ghost vis = visible(cmd.subcommands@);
        let mut names: Vec<&str> = Vec::new();
        let mut i: usize = 0;
        while i < subs.len()
            invariant
                i <= subs@.len(),
                subs@.len() == vis.len(),
                forall|k: int| 0 <= k < subs@.len() ==> *#[trigger] subs@[k] == vis[k],
                names@.len() == i,
                forall|k: int| 0 <= k < i ==> (#[trigger] names@[k])@ == vis[k].name@,
            decreases subs@.len() - i,
        {
            names.push(subs[i].name.as_str());
            i = i + 1;
        }
        let cats = menu.categories();
        let ghost mc = menu_categories(cmd.subcommands@, categories@);
        let mut headings: Vec<&str> = Vec::new();
        let mut j: usize = 0;
        while j < cats.len()
            invariant
                j <= cats@.len(),
                cats@.len() == mc.len(),
                forall|k: int| 0 <= k < cats@.len() ==> *#[trigger] cats@[k] == mc[k],
                headings@.len() == j,
                forall|k: int| 0 <= k < j ==> (#[trigger] headings@[k])@ == mc[k].spec_heading(),
            decreases cats@.len() - j,
        {
            headings.push(cats[j].heading());
            j = j + 1;
        }
        assert(names@.map_values(|n: &str| n@) =~= vis.map_values(|s: Subcommand| s.name@));
        assert(headings@.map_values(|h: &str| h@) =~= mc.map_values(|c: Category| c.spec_heading()));
        let layout = MenuLayout::measure(&names, &headings);
        MenuView { layout, menu, cmd, renderer }
    }

    /// Write one subcommand's row.
    pub fn write_row(&self, out: &mut String, sub: &Subcommand)
        ensures
            final(out)@ == old(out)@ + row_text(*sub, self.layout, self.cmd.styles, *self.renderer),
    {
        let literal = &self.cmd.styles.literal;
        out.append("  ");
        out.append(literal.prefix.as_str());
        out.append(sub.name.as_str());
        out.append(literal.suffix.as_str());
        let pad = self.layout.name_width.saturating_sub(width_of(sub.name.as_str()));
        push_spaces(out, pad);
        match &sub.about {
            Some(about) => {
                out.append("  ");
                self.renderer.render_str(out, about.as_str());
            },
            None => {},
        }
        proof {
            reveal_strlit("  ");
            assert("  "@ =~= seq![' ', ' ']);
        }
    }

    /// Write a category's heading line (without the line break).
    pub fn write_heading(&self, out: &mut String, category: &Category)
        ensures
            final(out)@ == old(out)@ + heading_text(*category, self.layout, self.cmd.styles, *self.renderer),
    {
        let header = &self.cmd.styles.header;
        let heading = category.heading();
        out.append(header.prefix.as_str());
        out.append(heading);
        out.append(":");
        out.append(header.suffix.as_str());
        match category.description {
            Some(description) => {
                let pad = self.layout.description_col.saturating_sub(width_of(heading).saturating_add(1));
                push_spaces(out, pad);
                self.renderer.render_str(out, description);
            },
            None => {},
        }
        proof {
            reveal_strlit(":");
            assert(":"@ =~= seq![':']);
        }
    }
}

} // verus!

verus! {

impl<'a> MenuView<'a> {
    /// The text of one section: a category's heading line then its rows, or just the rows of
    /// the uncategorized subcommands.
    pub fn section(&self, category: Option<&Category>) -> (text: String)
        requires
            self.menu.subcommands == &self.cmd.subcommands,
            self.layout == menu_layout(*self.cmd, self.menu.category_map),
        ensures
            text@ == section_text(*self.cmd, self.menu.category_map, *self.renderer, owned_category(category)),
    {
        let ghost key = key_of(owned_category(category));
        let ghost mem = members(self.cmd.subcommands@, self.menu.category_map@, key);
        let rows_of = self.menu.members(category);
        assert(key == crate::menu::key_of_ref(category));
        let mut rows: Vec<String> = Vec::new();
        let mut i: usize = 0;
        while i < rows_of.len()
            invariant
                i <= rows_of@.len(),
                rows_of@.len() == mem.len(),
                forall|k: int| 0 <= k < rows_of@.len() ==> *#[trigger] rows_of@[k] == mem[k],
                self.menu.subcommands == &self.cmd.subcommands,
                self.layout == menu_layout(*self.cmd, self.menu.category_map),
                rows@.len() == i,
                forall|k: int| 0 <= k < i ==>
                    (#[trigger] rows@[k])@ == row_text(mem[k], self.layout, self.cmd.styles, *self.renderer),
            decreases rows_of@.len() - i,
        {
            let mut row = String::new();
            self.write_row(&mut row, rows_of[i]);
            rows.push(row);
            i = i + 1;
        }
        let ghost layout = menu_layout(*self.cmd, self.menu.category_map);
        assert(rows@.map_values(|s: String| s@) =~= mem.map_values(
            |s: Subcommand| row_text(s, layout, self.cmd.styles, *self.renderer),
        ));
        let mut text = String::new();
        match category {
            Some(c) => {
                self.write_heading(&mut text, c);
                text.append("\n");
            },
            None => {},
        }
        write_joined(&mut text, &rows, "\n");
        proof {
            reveal_strlit("\n");
            assert("\n"@ =~= seq!['\n']);
        }
        text
    }

    /// Write the whole listing: the uncategorized rows first, then each category's section,
    /// a blank line between each two.
    pub fn write_menu(&self, out: &mut String)
        requires
            self.menu.subcommands == &self.cmd.subcommands,
            self.layout == menu_layout(*self.cmd, self.menu.category_map),
        ensures
            final(out)@ == old(out)@ + menu_text(*self.cmd, self.menu.category_map, *self.renderer),
    {
        let ghost cmd = *self.cmd;
        let ghost map = self.menu.category_map;
        let ghost all = menu_sections(cmd, map, *self.renderer);
        let mut sections: Vec<String> = Vec::new();
        let uncategorized = self.menu.has_uncategorized();
        if uncategorized {
            let s = self.section(None);
            sections.push(s);
        }
        let ghost offset: int = if uncategorized { 1 } else { 0 };
        let cats = self.menu.categories();
        let ghost mc = menu_categories(cmd.subcommands@, map@);
        let mut j: usize = 0;
        while j < cats.len()
            invariant
                j <= cats@.len(),
                cats@.len() == mc.len(),
                forall|k: int| 0 <= k < cats@.len() ==> *#[trigger] cats@[k] == mc[k],
                self.menu.subcommands == &self.cmd.subcommands,
                self.layout == menu_layout(*self.cmd, self.menu.category_map),
                cmd == *self.cmd,
                mc == menu_categories(cmd.subcommands@, map@),
                map == self.menu.category_map,
                uncategorized == (members(cmd.subcommands@, map@, None).len() > 0),
                offset == if uncategorized { 1int } else { 0int },
                all == menu_sections(cmd, map, *self.renderer),
                all.len() == offset + mc.len(),
                sections@.len() == offset + j,
                forall|k: int| 0 <= k < offset + j ==> (#[trigger] sections@[k])@ == all[k],
            decreases cats@.len() - j,
        {
            let s = self.section(Some(cats[j]));
            assert(Some(*cats[j as int]) == Some(mc[j as int]));
            proof {
                let categorized = mc.map_values(|c: Category| section_text(cmd, map, *self.renderer, Some(c)));
                assert(categorized[j as int] == section_text(cmd, map, *self.renderer, Some(mc[j as int])));
                if uncategorized {
                    assert(all == seq![section_text(cmd, map, *self.renderer, None)] + categorized);
                } else {
                    assert(all == categorized);
                }
                assert(all[offset + j] == section_text(cmd, map, *self.renderer, Some(mc[j as int])));
            }
            sections.push(s);
            j = j + 1;
        }
        assert(sections@.map_values(|s: String| s@) =~= all);
        write_joined(out, &sections, "\n\n");
        proof {
            reveal_strlit("\n\n");
            assert("\n\n"@ =~= seq!['\n', '\n']);
        }
    }
}

/// Writes the categorized listing of `cmd`'s visible subcommands to `out`.
pub fn write_command_sections(out: &mut String, cmd: &HelpCommand, categories: CommandCategoryMap, renderer: &TextRenderer)
    ensures
        final(out)@ == old(out)@ + menu_text(*cmd, categories, *renderer),
{
    let view = MenuView::new(cmd, categories, renderer);
    view.write_menu(out);
}

} // verus!

verus! {

/// The widest of a list is at least each of its members, and is one of them when the list is
/// not empty.
pub proof fn lemma_widest(widths: Seq<usize>)
    ensures
        forall|i: int| 0 <= i < widths.len() ==> #[trigger] widths[i] <= widest(widths),
        widths.len() > 0 ==> exists|i: int| 0 <= i < widths.len() && #[trigger] widths[i] == widest(widths),
    decreases widths.len(),
{
    if widths.len() > 0 {
        let prefix = widths.drop_last();
        lemma_widest(prefix);
        assert forall|i: int| 0 <= i < widths.len() implies #[trigger] widths[i] <= widest(widths) by {
            if i < prefix.len() {
                assert(prefix[i] == widths[i]);
            }
        }
        if prefix.len() > 0 && widths.last() <= widest(prefix) {
            let i = choose|i: int| 0 <= i < prefix.len() && #[trigger] prefix[i] == widest(prefix);
            assert(widths[i] == prefix[i]);
        } else {
            assert(widths[widths.len() - 1] == widest(widths));
        }
    }
}

/// Every listed name fits the name column: its row pads it to exactly the widest visible
/// name, so the abouts of all rows start in one column. The name column is the width of one of
/// the listed names (zero when none is listed).
pub proof fn law_rows_align(cmd: HelpCommand, map: CommandCategoryMap)
    ensures
        forall|i: int| 0 <= i < visible(cmd.subcommands@).len() ==>
            display_width(#[trigger] visible(cmd.subcommands@)[i].name@) <= menu_layout(cmd, map).name_width,
        visible(cmd.subcommands@).len() == 0 ==> menu_layout(cmd, map).name_width == 0,
        visible(cmd.subcommands@).len() > 0 ==> exists|i: int| 0 <= i < visible(cmd.subcommands@).len()
            && display_width(#[trigger] visible(cmd.subcommands@)[i].name@) == menu_layout(cmd, map).name_width,
{
    let vis = visible(cmd.subcommands@);
    let ws = name_widths(vis.map_values(|s: Subcommand| s.name@));
    lemma_widest(ws);
    assert forall|i: int| 0 <= i < vis.len() implies display_width(#[trigger] vis[i].name@) <= menu_layout(cmd, map).name_width by {
        assert(ws[i] == display_width(vis[i].name@));
    }
    if vis.len() > 0 {
        let i = choose|i: int| 0 <= i < ws.len() && #[trigger] ws[i] == widest(ws);
        assert(ws[i] == display_width(vis[i].name@));
    }
}

/// The name column is the widest name among the subcommands that are not hidden, and zero when
/// every one is hidden: every such name fits it, one of them fills it, and a hidden subcommand's
/// name never widens it.
pub proof fn law_name_column_from_listed(cmd: HelpCommand, map: CommandCategoryMap)
    ensures
        forall|i: int| 0 <= i < cmd.subcommands@.len() && !(#[trigger] cmd.subcommands@[i]).hidden ==>
            display_width(cmd.subcommands@[i].name@) <= menu_layout(cmd, map).name_width,
        (forall|i: int| 0 <= i < cmd.subcommands@.len() ==> (#[trigger] cmd.subcommands@[i]).hidden)
            ==> menu_layout(cmd, map).name_width == 0,
        menu_layout(cmd, map).name_width > 0 ==> exists|i: int| 0 <= i < cmd.subcommands@.len()
            && !(#[trigger] cmd.subcommands@[i]).hidden
            && display_width(cmd.subcommands@[i].name@) == menu_layout(cmd, map).name_width,
{
    let subs = cmd.subcommands@;
    let vis = visible(subs);
    law_rows_align(cmd, map);
    law_visible_is_the_unhidden(subs);
    assert forall|i: int| 0 <= i < subs.len() && !(#[trigger] subs[i]).hidden implies
        display_width(subs[i].name@) <= menu_layout(cmd, map).name_width by {
        assert(vis.contains(subs[i]));
        let k = choose|k: int| 0 <= k < vis.len() && vis[k] == subs[i];
        assert(display_width(vis[k].name@) <= menu_layout(cmd, map).name_width);
    }
    if forall|i: int| 0 <= i < subs.len() ==> (#[trigger] subs[i]).hidden {
        if vis.len() > 0 {
            assert(subs.contains(vis[0]));
            let i = choose|i: int| 0 <= i < subs.len() && subs[i] == vis[0];
            assert(subs[i].hidden);
            assert(!vis[0].hidden);
        }
    }
    if menu_layout(cmd, map).name_width > 0 {
        assert(vis.len() > 0);
        let k = choose|k: int| 0 <= k < vis.len() && display_width(#[trigger] vis[k].name@) == menu_layout(cmd, map).name_width;
        assert(subs.contains(vis[k]));
        assert(!vis[k].hidden);
        let i = choose|i: int| 0 <= i < subs.len() && subs[i] == vis[k];
        assert(!subs[i].hidden);
    }
}

/// A category description never starts at or next to the column where abouts start (two cells
/// past the widest name): it keeps at least two cells from it, as long as the columns do not
/// reach the largest `usize`.
pub proof fn law_description_clear_of_abouts(name_width: usize, heading_width: usize)
    requires
        name_width + 6 <= usize::MAX,
        heading_width + 2 <= usize::MAX,
    ensures
        ({
            let about_col = name_width + 4;
            let col = layout_for(name_width, heading_width).description_col as int;
            col >= about_col + 2 || col <= about_col - 2
        }),
{
}

/// The help template: clap's usual layout, with the categorized listing in `{before-help}`
/// and only the options after it.
pub open spec fn help_template_text(header: StyleCodes) -> Seq<char> {
    "{name} {version}\n{author}\n{about}\n\n{usage-heading}\n  {usage}\n\n{before-help}"@ + header.prefix@
        + "Options:"@ + header.suffix@ + "\n{options}"@
}

/// The help template for a command whose headings take `header`'s style.
///
/// clap cannot regroup its subcommand listing, so the template lists `{options}` instead of
/// `{all-args}` and the menu goes in `{before-help}`.
pub fn help_template(header: &StyleCodes) -> (template: String)
    ensures
        template@ == help_template_text(*header),
{
    let mut t = String::new();
    t.append("{name} {version}\n{author}\n{about}\n\n{usage-heading}\n  {usage}\n\n{before-help}");
    t.append(header.prefix.as_str());
    t.append("Options:");
    t.append(header.suffix.as_str());
    t.append("\n{options}");
    t
}

/// What couture installs on a command: the listing and the template that shows it.
pub struct CoutureHelp {
    /// Goes in the command's `before_help`.
    pub before_help: String,
    /// Becomes the command's `help_template`.
    pub template: String,
}

/// The listing of `cmd` grouped by `categories`, and the help template around it.
pub fn couture_help(cmd: &HelpCommand, categories: CommandCategoryMap, renderer: &TextRenderer) -> (help: CoutureHelp)
    ensures
        help.before_help@ == menu_text(*cmd, categories, *renderer),
        help.template@ == help_template_text(cmd.styles.header),
{
    let mut before_help = String::new();
    write_command_sections(&mut before_help, cmd, categories, renderer);
    let template = help_template(&cmd.styles.header);
    CoutureHelp { before_help, template }
}

} // verus!
