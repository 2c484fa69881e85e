use anemone_core::cli::{Coerced, ValueKind};
use anemone_core::config_tree::{coerced_node, ConfigTree, PathError, TreeNode};

fn tree() -> ConfigTree {
    ConfigTree {
        nodes: vec![
            TreeNode::Object(vec![("translation".to_string(), 1), ("window_visible".to_string(), 6)]),
            TreeNode::Object(vec![("llm".to_string(), 2), ("engine".to_string(), 3)]),
            TreeNode::Object(vec![("max_tokens".to_string(), 4), ("temperature".to_string(), 5)]),
            TreeNode::Text("eztrans".to_string()),
            TreeNode::Number { text: "1024".to_string(), integer: true },
            TreeNode::Number { text: "1.0".to_string(), integer: false },
            TreeNode::Bool(true),
            TreeNode::Array(vec![]),
        ],
    }
}

#[test]
fn dotted_keys_find_their_values() {
    let t = tree();
    assert_eq!(t.locate("translation.llm.max_tokens"), Ok(4));
    assert_eq!(t.locate("translation.engine"), Ok(3));
    assert_eq!(t.locate("translation"), Ok(1));
    assert_eq!(t.kind_at(4), ValueKind::Integer);
    assert_eq!(t.kind_at(5), ValueKind::Float);
    assert_eq!(t.kind_at(1), ValueKind::Compound);
    assert_eq!(t.scalar_text(3), Some("eztrans".to_string()));
    assert_eq!(t.scalar_text(6), Some("true".to_string()));
    assert_eq!(t.scalar_text(1), None);
    let path = vec!["translation".to_string(), "x".to_string()];
    assert_eq!(t.lookup_path(&path), Err(PathError::Missing(1)));
}

#[test]
fn bad_keys_are_explained() {
    let t = tree();
    assert_eq!(
        t.locate("translation.llm.model"),
        Err("키를 찾을 수 없습니다: translation.llm.model (segment: model)".to_string())
    );
    assert_eq!(
        t.locate("translation.engine.name"),
        Err("키 경로가 객체가 아닙니다: translation.engine.name".to_string())
    );
    assert_eq!(t.locate(""), Err("키를 찾을 수 없습니다:  (segment: )".to_string()));
}

#[test]
fn set_values_replace_their_node() {
    let mut t = tree();
    t.replace(4, coerced_node(Coerced::Integer(-32000)));
    assert_eq!(t.scalar_text(4), Some("-32000".to_string()));
    assert_eq!(t.kind_at(4), ValueKind::Integer);
    t.replace(6, coerced_node(Coerced::Bool(false)));
    assert_eq!(t.scalar_text(6), Some("false".to_string()));
    t.replace(3, coerced_node(Coerced::Text("google".to_string())));
    assert_eq!(t.scalar_text(3), Some("google".to_string()));
}
