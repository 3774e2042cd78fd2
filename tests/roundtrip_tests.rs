use gaiascript::asm_compiler::{count_blocks, count_blocks_in};
use gaiascript::ast::{ASTNode, ActivationFunction, BlockNode, InputNode, InputType, LayerNode, LayerType, NetworkNode};
use gaiascript::parser::parse;

#[test]
fn canonical_text_reads_back() {
    let source = "N I 28 28 → [C₁ 32 ρ → P 2]×3 → D₁₂ 10 S\nZ 100 → D 5";
    let ast = parse(source).unwrap();
    let text = ast.to_text();
    assert_eq!(text, "N\nI 28 28 → [C₁ 32 ρ → P 2]×3 → D₁₂ 10 S\nZ 100 → D 5");
    let again = parse(&text).unwrap();
    assert_eq!(again.to_text(), text);
}

#[test]
fn built_tree_round_trips() {
    let block = ASTNode::Block(BlockNode {
        content: Box::new(ASTNode::Layer(LayerNode {
            layer_type: LayerType::Convolutional(0),
            params: vec![16, 3],
            activation: ActivationFunction::Tanh,
        })),
        repetitions: 2,
    });
    let input = ASTNode::Input(InputNode { input_type: InputType::Latent, params: vec![] });
    let net = ASTNode::Network(NetworkNode {
        components: None,
        body: vec![ASTNode::DataFlow(Box::new(input), Box::new(block))],
    });
    let text = net.to_text();
    assert_eq!(text, "N\nZ → [C 16 3 τ]×2");
    let back = parse(&text).unwrap();
    match &back {
        ASTNode::Network(n) => match &n.body[0] {
            ASTNode::DataFlow(from, to) => {
                match &**from {
                    ASTNode::Input(i) => {
                        assert_eq!(i.input_type, InputType::Latent);
                        assert!(i.params.is_empty());
                    },
                    _ => panic!("expected an input"),
                }
                match &**to {
                    ASTNode::Block(b) => {
                        assert_eq!(b.repetitions, 2);
                        match &*b.content {
                            ASTNode::Layer(l) => {
                                assert_eq!(l.layer_type, LayerType::Convolutional(0));
                                assert_eq!(l.params, vec![16, 3]);
                                assert_eq!(l.activation, ActivationFunction::Tanh);
                            },
                            _ => panic!("expected a layer"),
                        }
                    },
                    _ => panic!("expected a block"),
                }
            },
            _ => panic!("expected a flow"),
        },
        _ => panic!("expected a network"),
    }
}

#[test]
fn rendering_of_components_and_losses() {
    let ast = parse("N⟨enc⊕dec⟩ enc: D 3\nenc ⊳ out ⟿ mse").unwrap();
    assert_eq!(ast.to_text(), "N⟨enc⊕dec⟩\nenc: D 3\nD 3⊳out⟿mse");
}

#[test]
fn bare_layer_before_sequence_input_is_read_as_softmax() {
    let net = ASTNode::Network(NetworkNode {
        components: None,
        body: vec![
            ASTNode::Layer(LayerNode {
                layer_type: LayerType::Dense(0),
                params: vec![10],
                activation: ActivationFunction::Linear,
            }),
            ASTNode::Input(InputNode { input_type: InputType::Sequence, params: vec![5] }),
        ],
    });
    assert_eq!(net.to_text(), "N\nD 10\nS 5");
    assert!(parse(&net.to_text()).is_err());
    let glued = parse("N D 10\nS").unwrap();
    match &glued {
        ASTNode::Network(n) => {
            assert_eq!(n.body.len(), 1);
            match &n.body[0] {
                ASTNode::Layer(l) => assert_eq!(l.activation, ActivationFunction::Softmax),
                _ => panic!("expected a layer"),
            }
        },
        _ => panic!("expected a network"),
    }
}

#[test]
fn block_counts() {
    let ast = parse("N [D 1]×2 → [[P]×2]×5\nI").unwrap();
    assert_eq!(count_blocks(&ast), Some(3));
    assert_eq!(count_blocks_in(&Vec::new()), Some(0));
}

#[test]
fn declared_component_list_round_trips() {
    let source = "N⟨encoder⊕decoder⟩\nI 8 → D 4";
    let ast = parse(source).unwrap();
    assert_eq!(ast.to_text(), source);
    let again = parse(&ast.to_text()).unwrap();
    match &again {
        ASTNode::Network(n) => {
            assert_eq!(n.components, Some(vec!["encoder".to_string(), "decoder".to_string()]));
            assert_eq!(n.body.len(), 1);
        },
        _ => panic!("expected a network"),
    }
}
