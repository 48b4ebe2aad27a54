# clap_couture

Categorized `--help` listings for [clap](https://docs.rs/clap) command-line tools, and prompts
on the terminal for the marked args a user left out.

The library under `src/` is written in Verus: each public function states what it returns in
its contract, and Verus proves the code against it.

- `category` — command names, categories and the static map between them.
- `menu` — a command's visible subcommands, partitioned by category.
- `render`, `markdown` — the listing itself: aligned rows, category headings with their
  descriptions, markdown in help text, and the help template around the listing.
- `naming`, `expand`, `prompt_plan` — what `#[derive(Couture)]` computes: clap's names for
  subcommand variants, the category entries in heading order, and the prompt marks of each
  command level.
- `tree`, `flow`, `interactive`, `palette` — the prompting parse: which marks are asked, in
  which order, what a prompt's or a trial parse's outcome leads to, and the terminal backends'
  choices.

`app/` is the ordinary Rust around it: reading clap's `Command` and `ArgMatches` into the
library's values, installing the listing, running the parses and prompts the library's session
asks for, and turning the derive's plans into tokens.
