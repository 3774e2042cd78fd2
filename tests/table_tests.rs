use gaiascript::ast::{ASTNode, ActivationFunction, LayerNode, LayerType, SymbolTable};

fn dense(units: usize) -> ASTNode {
    ASTNode::Layer(LayerNode {
        layer_type: LayerType::Dense(1),
        params: vec![units],
        activation: ActivationFunction::Linear,
    })
}

fn units(n: &ASTNode) -> Vec<usize> {
    match n {
        ASTNode::Layer(l) => l.params.clone(),
        _ => panic!("not a layer"),
    }
}

#[test]
fn get_after_add_returns_the_node() {
    let mut t = SymbolTable::new();
    assert!(t.get_component("enc").is_none());
    t.add_component("enc".to_string(), dense(10));
    assert_eq!(units(t.get_component("enc").unwrap()), vec![10]);
    assert!(t.get_component("dec").is_none());
}

#[test]
fn add_overwrites_an_earlier_binding() {
    let mut t = SymbolTable::new();
    t.add_component("enc".to_string(), dense(10));
    t.add_component("dec".to_string(), dense(5));
    t.add_component("enc".to_string(), dense(20));
    assert_eq!(units(t.get_component("enc").unwrap()), vec![20]);
    assert_eq!(units(t.get_component("dec").unwrap()), vec![5]);
}

#[test]
fn resolutions_do_not_share_storage() {
    let mut t = SymbolTable::new();
    t.add_component("enc".to_string(), dense(10));
    let mut a = t.resolve("enc").unwrap();
    let b = t.resolve("enc").unwrap();
    if let ASTNode::Layer(l) = &mut a {
        l.params.push(99);
    }
    assert_eq!(units(&a), vec![10, 99]);
    assert_eq!(units(&b), vec![10]);
    assert_eq!(units(t.get_component("enc").unwrap()), vec![10]);
}
