use clap_couture::{PromptChild, PromptNode, PromptSpec};

fn spec(id: &'static str) -> PromptSpec {
    PromptSpec { id, question: None }
}

fn leaf(ids: &[&'static str]) -> PromptNode {
    PromptNode { args: ids.iter().map(|id| spec(id)).collect(), children: Vec::new() }
}

/// The tree of a parser with two root marks, a subcommand enum (`up` with flattened args, a
/// struct variant `dry_run` and a nested `remote push`) and a flattened struct after it.
fn cli() -> PromptNode {
    let remote = PromptNode {
        args: Vec::new(),
        children: vec![PromptChild::Subcommand("push", Box::new(leaf(&["force_name"])))],
    };
    let cmd = PromptNode {
        args: Vec::new(),
        children: vec![
            PromptChild::Subcommand("up", Box::new(PromptNode {
                args: Vec::new(),
                children: vec![PromptChild::Flatten(Box::new(leaf(&["tag"])))],
            })),
            PromptChild::Subcommand("dry_run", Box::new(leaf(&["plan"]))),
            PromptChild::Subcommand("remote", Box::new(PromptNode {
                args: Vec::new(),
                children: vec![PromptChild::Flatten(Box::new(remote))],
            })),
        ],
    };
    PromptNode {
        args: vec![spec("zone"), spec("type")],
        children: vec![PromptChild::Flatten(Box::new(cmd)), PromptChild::Flatten(Box::new(leaf(&["team_name"])))],
    }
}

#[test]
fn marks_follow_the_command_tree() {
    let marks: Vec<(String, &str)> = cli().marks().into_iter().map(|mark| (mark.path.join(" "), mark.spec.id)).collect();
    let expected = [
        (String::new(), "zone"),
        (String::new(), "type"),
        ("up".to_owned(), "tag"),
        ("dry_run".to_owned(), "plan"),
        ("remote push".to_owned(), "force_name"),
        (String::new(), "team_name"),
    ];
    assert_eq!(marks, expected);
}

#[test]
fn marks_keep_the_question_override() {
    let node = PromptNode {
        args: vec![PromptSpec { id: "port", question: Some("Which port?") }, spec("region")],
        children: Vec::new(),
    };
    let questions: Vec<Option<&str>> = node.marks().iter().map(|mark| mark.spec.question).collect();
    assert_eq!(questions, [Some("Which port?"), None]);
}

#[test]
fn an_empty_node_has_no_marks() {
    assert!(PromptNode::empty().marks().is_empty());
}
