use gm::components::tree::{
    build_tree, parse_node_data, BranchData, ImageData, NodeData, NodeType, Tree, TreeNode,
};
use gm::json::{parse_json, JsonValue};

fn node(id: u128, parent_id: Option<u128>, node_type: NodeType, name: &str) -> TreeNode {
    TreeNode {
        id,
        parent_id,
        node_type,
        name: Some(name.to_string()),
        data: parse_json(&format!("{{\"title\": \"{}\"}}", name)).unwrap(),
        path: format!("/{}", name),
        updated_at: "2024-01-01".to_string(),
        depth: 1,
        own: true,
    }
}

fn tree(id: u128, node_type: NodeType, name: &str, children: Vec<Tree>) -> Tree {
    let raw = parse_json(&format!("{{\"title\": \"{}\"}}", name)).unwrap();
    Tree {
        id,
        node_type,
        name: Some(name.to_string()),
        data: if node_type == NodeType::ImageLeaf {
            NodeData::Image(no_image())
        } else {
            NodeData::Branch(BranchData { title: Some(name.to_string()) })
        },
        raw_data: raw,
        path: format!("/{}", name),
        updated_at: "2024-01-01".to_string(),
        depth: 1,
        own: true,
        children,
    }
}

fn no_image() -> ImageData {
    ImageData {
        hash: None,
        mime_type: None,
        size: None,
        src: None,
        storage_path: None,
        thumbnail_url: None,
        url: None,
    }
}

#[test]
fn the_children_of_the_root_are_at_the_top() {
    let nodes = vec![
        node(1, None, NodeType::Root, "root"),
        node(2, Some(1), NodeType::Branch, "a"),
        node(3, Some(1), NodeType::Branch, "b"),
        node(4, Some(2), NodeType::ImageLeaf, "leaf"),
        node(5, Some(99), NodeType::Branch, "orphan"),
        node(6, Some(4), NodeType::Branch, "deep"),
        node(7, None, NodeType::Branch, "loose"),
        node(8, Some(2), NodeType::Branch, "a2"),
    ];
    assert_eq!(
        build_tree(nodes),
        vec![
            tree(
                2,
                NodeType::Branch,
                "a",
                vec![
                    tree(4, NodeType::ImageLeaf, "leaf", vec![tree(6, NodeType::Branch, "deep", vec![])]),
                    tree(8, NodeType::Branch, "a2", vec![]),
                ]
            ),
            tree(3, NodeType::Branch, "b", vec![]),
        ]
    );
}

#[test]
fn without_a_root_there_is_no_tree() {
    assert_eq!(build_tree(vec![]), vec![]);
    assert_eq!(
        build_tree(vec![node(2, Some(1), NodeType::Branch, "a"), node(3, Some(2), NodeType::Branch, "b")]),
        vec![]
    );
    assert_eq!(build_tree(vec![node(1, None, NodeType::Root, "root")]), vec![]);
}

#[test]
fn of_nodes_with_one_identifier_the_last_counts() {
    let nodes = vec![
        node(2, Some(1), NodeType::Branch, "old"),
        node(1, None, NodeType::Root, "root"),
        node(3, Some(2), NodeType::Branch, "kid"),
        node(2, Some(1), NodeType::Branch, "new"),
        node(3, Some(7), NodeType::Branch, "moved"),
    ];
    assert_eq!(build_tree(nodes), vec![tree(2, NodeType::Branch, "new", vec![])]);
}

#[test]
fn roots_are_taken_in_the_order_of_the_list() {
    let nodes = vec![
        node(10, Some(2), NodeType::Branch, "x"),
        node(1, None, NodeType::Root, "r1"),
        node(11, Some(1), NodeType::Branch, "y"),
        node(2, None, NodeType::Root, "r2"),
        node(12, Some(1), NodeType::Branch, "z"),
        node(13, Some(1), NodeType::Root, "inner root"),
        node(14, Some(13), NodeType::Branch, "below inner"),
    ];
    assert_eq!(
        build_tree(nodes),
        vec![
            tree(11, NodeType::Branch, "y", vec![]),
            tree(12, NodeType::Branch, "z", vec![]),
            tree(10, NodeType::Branch, "x", vec![]),
            tree(14, NodeType::Branch, "below inner", vec![]),
        ]
    );
}

#[test]
fn a_ring_of_parents_is_in_no_tree() {
    let nodes = vec![
        node(1, None, NodeType::Root, "root"),
        node(2, Some(3), NodeType::Branch, "a"),
        node(3, Some(2), NodeType::Branch, "b"),
        node(4, Some(4), NodeType::Branch, "self"),
        node(5, Some(1), NodeType::Branch, "ok"),
    ];
    assert_eq!(build_tree(nodes), vec![tree(5, NodeType::Branch, "ok", vec![])]);
}

#[test]
fn the_kind_has_a_name() {
    assert_eq!(tree(1, NodeType::Root, "r", vec![]).node_type_str(), "Root");
    assert_eq!(tree(1, NodeType::Branch, "r", vec![]).node_type_str(), "Branch");
    assert_eq!(tree(1, NodeType::ImageLeaf, "r", vec![]).node_type_str(), "ImageLeaf");
    let t = tree(1, NodeType::Branch, "r", vec![tree(2, NodeType::Branch, "c", vec![])]);
    assert_eq!(t.clone(), t);
}

#[test]
fn data_is_read_according_to_the_kind() {
    let image = parse_json(
        r#"{"hash": "h", "mime_type": "image/png", "size": 12, "src": null, "url": "http://x", "more": [1]}"#,
    )
    .unwrap();
    assert_eq!(
        parse_node_data(NodeType::ImageLeaf, &image),
        NodeData::Image(ImageData {
            hash: Some("h".to_string()),
            mime_type: Some("image/png".to_string()),
            size: Some(12),
            src: None,
            storage_path: None,
            thumbnail_url: None,
            url: Some("http://x".to_string()),
        })
    );
    assert_eq!(
        parse_node_data(NodeType::Branch, &image),
        NodeData::Branch(BranchData { title: None })
    );
    let titled = parse_json(r#"{"title": "T"}"#).unwrap();
    assert_eq!(
        parse_node_data(NodeType::Root, &titled),
        NodeData::Branch(BranchData { title: Some("T".to_string()) })
    );
    assert_eq!(parse_node_data(NodeType::ImageLeaf, &titled), NodeData::Image(no_image()));
    assert_eq!(
        parse_node_data(NodeType::ImageLeaf, &JsonValue::Object(vec![])),
        NodeData::Image(no_image())
    );
}

#[test]
fn data_of_the_wrong_shape_is_empty() {
    for source in [
        "null",
        "\"text\"",
        "[]",
        r#"["h", "m", 1, "s", "p", "t"]"#,
        r#"["h", "m", 1, "s", "p", "t", "u", null]"#,
        r#"["h", "m", "1", "s", "p", "t", "u"]"#,
        r#"[1, "m", 1, "s", "p", "t", "u"]"#,
        r#"{"size": -1}"#,
        r#"{"size": 1.5}"#,
        r#"{"size": "12"}"#,
        r#"{"size": 18446744073709551616}"#,
        r#"{"hash": 5}"#,
        r#"{"url": ["http://x"]}"#,
    ] {
        assert_eq!(parse_node_data(NodeType::ImageLeaf, &parse_json(source).unwrap()), NodeData::Empty);
    }
    for source in ["null", "7", "[]", "[5]", r#"["a", "b"]"#, r#"{"title": 5}"#, r#"{"title": {}}"#] {
        assert_eq!(parse_node_data(NodeType::Branch, &parse_json(source).unwrap()), NodeData::Empty);
    }
    let big = parse_json(r#"{"size": 18446744073709551615}"#).unwrap();
    assert_eq!(
        parse_node_data(NodeType::ImageLeaf, &big),
        NodeData::Image(ImageData { size: Some(u64::MAX), ..no_image() })
    );
}

#[test]
fn data_may_be_an_array_of_the_fields_in_order() {
    assert_eq!(
        parse_node_data(NodeType::Branch, &parse_json(r#"["x"]"#).unwrap()),
        NodeData::Branch(BranchData { title: Some("x".to_string()) })
    );
    assert_eq!(
        parse_node_data(NodeType::Root, &parse_json("[null]").unwrap()),
        NodeData::Branch(BranchData { title: None })
    );
    assert_eq!(
        parse_node_data(
            NodeType::ImageLeaf,
            &parse_json(r#"["h", null, 12, "s", "p", null, "u"]"#).unwrap()
        ),
        NodeData::Image(ImageData {
            hash: Some("h".to_string()),
            mime_type: None,
            size: Some(12),
            src: Some("s".to_string()),
            storage_path: Some("p".to_string()),
            thumbnail_url: None,
            url: Some("u".to_string()),
        })
    );
    assert_eq!(
        parse_node_data(NodeType::ImageLeaf, &parse_json(r#"["x"]"#).unwrap()),
        NodeData::Empty
    );
    let nodes = vec![
        TreeNode { data: parse_json("[]").unwrap(), ..node(1, None, NodeType::Root, "root") },
        TreeNode { data: parse_json(r#"["x"]"#).unwrap(), ..node(2, Some(1), NodeType::Branch, "a") },
    ];
    let trees = build_tree(nodes);
    assert_eq!(trees.len(), 1);
    assert_eq!(trees[0].data, NodeData::Branch(BranchData { title: Some("x".to_string()) }));
    assert_eq!(trees[0].raw_data, parse_json(r#"["x"]"#).unwrap());
}
