//! Categorized `--help` listings for command-line tools: the category map, the menu layout and
//! rendering, and the decisions behind the derive and the interactive prompts.

use vstd::prelude::*;

pub mod text;
pub mod category;
pub mod menu;
pub mod markdown;
pub mod render;
pub mod naming;
pub mod expand;
pub mod prompt_plan;
pub mod tree;
pub mod interactive;
pub mod palette;
pub mod flow;

pub use category::{Category, CommandCategoryMap, CommandName};
pub use interactive::{Cliclack, Dialoguer, Inquire, PromptError};
pub use tree::{Mark, PromptChild, PromptNode, PromptSpec};

verus! {

/// A type's command categories and marked args, usually from `#[derive(Couture)]` on a
/// subcommand enum or a parser struct.
pub trait Couture {
    /// Each command paired with the category it belongs to; none unless implemented.
    fn categories() -> (map: CommandCategoryMap)
        default_ensures
            map@.len() == 0,
    {
        CommandCategoryMap::empty()
    }

    /// The args marked `#[couture(prompt)]`, and the tree below them; none unless implemented.
    fn prompts() -> (node: PromptNode)
        default_ensures
            node.args@.len() == 0 && node.children@.len() == 0,
    {
        PromptNode::empty()
    }
}

} // verus!
