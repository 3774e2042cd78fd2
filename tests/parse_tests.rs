use gaiascript::ast::{ASTNode, ActivationFunction, InputType, LayerType};
use gaiascript::parser::parse;

fn body_of(node: &ASTNode) -> &Vec<ASTNode> {
    match node {
        ASTNode::Network(n) => &n.body,
        _ => panic!("not a network"),
    }
}

#[test]
fn scenario_image_conv_dense() {
    let ast = parse("N I → C₁ 32 → D₁ 10").unwrap();
    match &ast {
        ASTNode::Network(n) => assert!(n.components.is_none()),
        _ => panic!("not a network"),
    }
    let body = body_of(&ast);
    assert_eq!(body.len(), 1);
    match &body[0] {
        ASTNode::DataFlow(from, to) => {
            match &**from {
                ASTNode::DataFlow(a, b) => {
                    match &**a {
                        ASTNode::Input(i) => {
                            assert_eq!(i.input_type, InputType::Image);
                            assert!(i.params.is_empty());
                        },
                        _ => panic!("expected an image input"),
                    }
                    match &**b {
                        ASTNode::Layer(l) => {
                            assert_eq!(l.layer_type, LayerType::Convolutional(1));
                            assert_eq!(l.params, vec![32]);
                            assert_eq!(l.activation, ActivationFunction::Linear);
                        },
                        _ => panic!("expected a convolution"),
                    }
                },
                _ => panic!("expected a left-nested flow"),
            }
            match &**to {
                ASTNode::Layer(l) => {
                    assert_eq!(l.layer_type, LayerType::Dense(1));
                    assert_eq!(l.params, vec![10]);
                },
                _ => panic!("expected a dense layer"),
            }
        },
        _ => panic!("expected a data flow"),
    }
}

#[test]
fn unterminated_block_is_an_error() {
    assert!(parse("N [D 10").is_err());
    assert!(parse("N [D 10]").is_err());
    assert!(parse("N [D 10]×").is_err());
}

#[test]
fn zero_repetitions_is_an_error() {
    assert!(parse("N [D 10]×0").is_err());
}

#[test]
fn unknown_glyph_is_an_error() {
    let r = parse("N I → ☃ 3");
    assert!(r.is_err());
    assert_eq!(r.err().unwrap().position, 6);
}

#[test]
fn unmatched_component_delimiter_is_an_error() {
    assert!(parse("N ⟨a⊕b").is_err());
    assert!(parse("N a⟩").is_err());
    assert!(parse("N ⟨a⊕⟩").is_err());
}

#[test]
fn missing_network_marker_is_an_error() {
    assert!(parse("I → D 10").is_err());
    assert!(parse("").is_err());
}

#[test]
fn number_too_large_is_an_error() {
    assert!(parse("N D 99999999999999999999999999").is_err());
}

#[test]
fn component_list_is_kept_in_order() {
    let ast = parse("N⟨enc⊕dec⟩").unwrap();
    match &ast {
        ASTNode::Network(n) => {
            assert_eq!(n.components, Some(vec!["enc".to_string(), "dec".to_string()]));
            assert!(n.body.is_empty());
        },
        _ => panic!("not a network"),
    }
    let ast = parse("N〈a〉").unwrap();
    match &ast {
        ASTNode::Network(n) => assert_eq!(n.components, Some(vec!["a".to_string()])),
        _ => panic!("not a network"),
    }
}

#[test]
fn component_reference_is_inlined() {
    let ast = parse("N enc: D₂ 64 ρ\nI 28 28 → enc").unwrap();
    let body = body_of(&ast);
    assert_eq!(body.len(), 2);
    match &body[0] {
        ASTNode::Component(c) => assert_eq!(c.id, "enc"),
        _ => panic!("expected a component definition"),
    }
    match &body[1] {
        ASTNode::DataFlow(from, to) => {
            match &**from {
                ASTNode::Input(i) => assert_eq!(i.params, vec![28, 28]),
                _ => panic!("expected an input"),
            }
            match &**to {
                ASTNode::Layer(l) => {
                    assert_eq!(l.layer_type, LayerType::Dense(2));
                    assert_eq!(l.params, vec![64]);
                    assert_eq!(l.activation, ActivationFunction::ReLU);
                },
                _ => panic!("expected the inlined dense layer"),
            }
        },
        _ => panic!("expected a data flow"),
    }
}

#[test]
fn forward_reference_is_an_error() {
    assert!(parse("N I → enc\nenc: D 10").is_err());
    assert!(parse("N enc: I → enc").is_err());
}

#[test]
fn loss_attachment() {
    let ast = parse("N I → D 10 S ⊳ out ⟿ crossentropy").unwrap();
    let body = body_of(&ast);
    assert_eq!(body.len(), 1);
    match &body[0] {
        ASTNode::Loss(l) => {
            assert_eq!(l.to, "out");
            assert_eq!(l.function, "crossentropy");
            match &*l.from {
                ASTNode::DataFlow(_, to) => match &**to {
                    ASTNode::Layer(d) => assert_eq!(d.activation, ActivationFunction::Softmax),
                    _ => panic!("expected a layer"),
                },
                _ => panic!("expected a data flow"),
            }
        },
        _ => panic!("expected a loss"),
    }
    assert!(parse("N I ⊳ out").is_err());
}

#[test]
fn block_and_glyphs() {
    let ast = parse("N [C₁₂ 3 σ → P 2]×4 T S 5").unwrap();
    let body = body_of(&ast);
    assert_eq!(body.len(), 3);
    match &body[0] {
        ASTNode::Block(b) => {
            assert_eq!(b.repetitions, 4);
            match &*b.content {
                ASTNode::DataFlow(c, p) => {
                    match &**c {
                        ASTNode::Layer(l) => {
                            assert_eq!(l.layer_type, LayerType::Convolutional(12));
                            assert_eq!(l.activation, ActivationFunction::Sigmoid);
                        },
                        _ => panic!("expected a convolution"),
                    }
                    match &**p {
                        ASTNode::Layer(l) => assert_eq!(l.layer_type, LayerType::Pooling),
                        _ => panic!("expected pooling"),
                    }
                },
                _ => panic!("expected a flow"),
            }
        },
        _ => panic!("expected a block"),
    }
    match &body[1] {
        ASTNode::Input(i) => assert_eq!(i.input_type, InputType::Text),
        _ => panic!("expected a text input"),
    }
    match &body[2] {
        ASTNode::Input(i) => {
            assert_eq!(i.input_type, InputType::Sequence);
            assert_eq!(i.params, vec![5]);
        },
        _ => panic!("expected a sequence input"),
    }
}
