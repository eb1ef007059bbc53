use anchorviz::canvas::plan_canvas;
use anchorviz::column::{column_height, plan_column, category_order, joined, Category, Placement};
use anchorviz::diagram::{build, fits, DrawPrimitive, FontWeight, Point, Rgb};
use anchorviz::flatten::{flatten, flatten_all};
use anchorviz::model::{
    Account, Argument, GridSpec, LayoutError, Operation, OperationKind, Program, Resource,
};
use anchorviz::pack::{classify, position_of, rows_needed, signer_rows};

fn leaf(name: &str, is_signer: bool, is_mut: bool) -> Resource {
    Resource::Leaf(Account { name: name.to_string(), is_signer, is_mut })
}

fn arg(name: &str, ty: &str) -> Argument {
    Argument { name: name.to_string(), ty: ty.to_string() }
}

fn op(name: &str, accounts: Vec<Resource>, args: Vec<Argument>) -> Operation {
    Operation { kind: OperationKind::Instruction, name: name.to_string(), accounts, args }
}

fn program(operations: Vec<Operation>) -> Program {
    Program { name: "demo".to_string(), version: "0.1.0".to_string(), operations }
}

fn names(v: &[Account]) -> Vec<String> {
    v.iter().map(|a| a.name.clone()).collect()
}

fn boxes(ps: &[Placement]) -> Vec<(Category, u64, u64, u64, u64, String, String)> {
    ps.iter()
        .map(|p| (p.category, p.left, p.top, p.right, p.bottom, p.primary.clone(), p.secondary.clone()))
        .collect()
}

fn rects(d: &[DrawPrimitive]) -> usize {
    d.iter().filter(|p| matches!(p, DrawPrimitive::FilledRect { .. })).count()
}

#[test]
fn flatten_nested_groups_depth_first() {
    let tree = Resource::Group(
        "outer".to_string(),
        vec![
            leaf("A", false, false),
            Resource::Group("inner".to_string(), vec![leaf("B", false, true), leaf("C", true, false)]),
            leaf("D", false, false),
        ],
    );
    let flat = flatten(&tree);
    assert_eq!(names(&flat), vec!["A", "B", "C", "D"]);
    assert!(flat[1].is_mut && !flat[1].is_signer);
    assert!(flat[2].is_signer);
}

#[test]
fn flatten_leaf_and_empty_group() {
    assert_eq!(names(&flatten(&leaf("solo", true, true))), vec!["solo"]);
    assert!(flatten(&Resource::Group("g".to_string(), vec![])).is_empty());
    let deep = Resource::Group(
        "a".to_string(),
        vec![Resource::Group("b".to_string(), vec![Resource::Group("c".to_string(), vec![leaf("x", false, false)])])],
    );
    assert_eq!(names(&flatten(&deep)), vec!["x"]);
    let all = flatten_all(&vec![leaf("p", false, false), deep, leaf("q", false, false)]);
    assert_eq!(names(&all), vec!["p", "x", "q"]);
}

#[test]
fn rows_needed_is_ceiling_of_division() {
    assert_eq!(rows_needed(0, 2), 0);
    assert_eq!(rows_needed(1, 2), 1);
    assert_eq!(rows_needed(2, 2), 1);
    assert_eq!(rows_needed(3, 2), 2);
    assert_eq!(rows_needed(7, 3), 3);
    assert_eq!(rows_needed(9, 3), 3);
    assert_eq!(rows_needed(5, 1), 5);
    assert_eq!(rows_needed(usize::MAX, 2), usize::MAX / 2 + 1);
}

#[test]
fn signer_rows_floor_to_one() {
    assert_eq!(signer_rows(0, 2), 1);
    assert_eq!(signer_rows(0, 7), 1);
    assert_eq!(signer_rows(1, 2), 1);
    assert_eq!(signer_rows(3, 2), 2);
}

#[test]
fn positions_fill_rows_left_to_right() {
    assert_eq!(position_of(0, 2), (0, 0));
    assert_eq!(position_of(1, 2), (0, 1));
    assert_eq!(position_of(2, 2), (1, 0));
    assert_eq!(position_of(5, 3), (1, 2));
}

#[test]
fn signer_and_mutable_leaf_is_only_a_signer() {
    let flat = flatten_all(&vec![
        leaf("payer", true, true),
        leaf("vault", false, true),
        leaf("auth", true, false),
        leaf("config", false, false),
        leaf("pool", false, true),
    ]);
    let (s, m, im) = classify(&flat);
    assert_eq!(names(&s), vec!["payer", "auth"]);
    assert_eq!(names(&m), vec!["vault", "pool"]);
    assert_eq!(names(&im), vec!["config"]);
    assert_eq!(s.len() + m.len() + im.len(), flat.len());
}

#[test]
fn category_order_is_fixed() {
    assert_eq!(
        category_order(),
        [Category::Title, Category::Signer, Category::Mutable, Category::Immutable, Category::Argument]
    );
}

#[test]
fn column_height_never_drops_when_adding() {
    let mut o = op("grow", vec![], vec![]);
    let mut last = column_height(&o, GridSpec { width: 2 });
    assert_eq!(last, 1);
    let additions = vec![
        leaf("s1", true, true),
        leaf("m1", false, true),
        leaf("i1", false, false),
        leaf("s2", true, false),
        leaf("s3", true, false),
        Resource::Group("g".to_string(), vec![leaf("m2", false, true), leaf("m3", false, true)]),
    ];
    for r in additions {
        o.accounts.insert(0, r);
        let h = column_height(&o, GridSpec { width: 2 });
        assert!(h >= last);
        last = h;
    }
    // signers: s1 s2 s3 -> 2 rows; accounts: m1 i1 m2 m3 -> 2 rows
    assert_eq!(last, 4);
    o.args.push(arg("amount", "u64"));
    assert_eq!(column_height(&o, GridSpec { width: 2 }), 5);
    o.args.push(arg("bump", "u8"));
    assert_eq!(column_height(&o, GridSpec { width: 2 }), 5);
}

#[test]
fn canvas_width_adds_columns_and_separators() {
    let g = GridSpec { width: 2 };
    let one = plan_canvas(&vec![op("a", vec![], vec![])], g).unwrap();
    assert_eq!(one.width, 504);
    let two = plan_canvas(&vec![op("a", vec![], vec![]), op("b", vec![], vec![])], g).unwrap();
    assert_eq!(two.width, 1010);
    let three = plan_canvas(
        &vec![op("a", vec![], vec![]), op("b", vec![], vec![]), op("c", vec![], vec![])],
        g,
    )
    .unwrap();
    assert_eq!(three.width, 1516);
    assert_eq!(three.width - two.width, 504 + 2);
    assert_eq!(one.width - 0, 504);
    assert_eq!(three.origins, vec![0, 506, 1012]);
    let wide = plan_canvas(&vec![op("a", vec![], vec![])], GridSpec { width: 3 }).unwrap();
    assert_eq!(wide.width, 3 * 240 + 4 * 8);
}

#[test]
fn empty_program_has_header_only() {
    let p = program(vec![]);
    let d = build(&p, GridSpec { width: 2 }).unwrap();
    assert_eq!(d.width, 0);
    assert_eq!(d.height, 100);
    assert_eq!(d.primitives.len(), 2);
    assert_eq!(rects(&d.primitives), 0);
}

#[test]
fn zero_width_is_invalid_configuration() {
    let p = program(vec![op("a", vec![leaf("x", true, false)], vec![])]);
    assert!(matches!(build(&p, GridSpec { width: 0 }), Err(LayoutError::InvalidConfiguration)));
    assert!(fits(&p, GridSpec { width: 0 }));
}

#[test]
fn oversized_canvas_does_not_fit() {
    let p = program(vec![op("a", vec![], vec![])]);
    assert!(fits(&p, GridSpec { width: 2 }));
    assert!(!fits(&p, GridSpec { width: 10_000_000 }));
    assert!(plan_canvas(&p.operations, GridSpec { width: 10_000_000 }).is_none());
}

#[test]
fn scenario_single_empty_operation() {
    let p = program(vec![op("initialize", vec![], vec![])]);
    assert_eq!(column_height(&p.operations[0], GridSpec { width: 2 }), 1);
    let d = build(&p, GridSpec { width: 2 }).unwrap();
    assert_eq!(d.width, 504);
    assert_eq!(d.height, 68 + 200);
    // header lines, then the title box and its two labels; nothing else
    assert_eq!(d.primitives.len(), 5);
    assert_eq!(rects(&d.primitives), 1);
    match &d.primitives[0] {
        DrawPrimitive::Text { content, anchor, size, weight } => {
            assert_eq!(content, "Anchor Program: demo");
            assert_eq!(*anchor, Point { x: 252, y: 25 });
            assert_eq!(*size, 24);
            assert_eq!(*weight, FontWeight::Bold);
        }
        _ => panic!("expected the program title"),
    }
    match &d.primitives[1] {
        DrawPrimitive::Text { content, anchor, weight, .. } => {
            assert_eq!(content, "Version: 0.1.0");
            assert_eq!(*anchor, Point { x: 252, y: 50 });
            assert_eq!(*weight, FontWeight::Normal);
        }
        _ => panic!("expected the version"),
    }
    match &d.primitives[2] {
        DrawPrimitive::FilledRect { top_left, bottom_right, fill } => {
            assert_eq!(*top_left, Point { x: 132, y: 108 });
            assert_eq!(*bottom_right, Point { x: 372, y: 168 });
            assert_eq!(*fill, Rgb { r: 255, g: 200, b: 200 });
        }
        _ => panic!("expected the title box"),
    }
    match &d.primitives[4] {
        DrawPrimitive::Text { content, anchor, size, .. } => {
            assert_eq!(content, "initialize");
            assert_eq!(*anchor, Point { x: 252, y: 148 });
            assert_eq!(*size, 20);
        }
        _ => panic!("expected the operation name"),
    }
}

#[test]
fn scenario_payer_vault_config() {
    let o = op(
        "deposit",
        vec![leaf("payer", true, true), leaf("vault", false, true), leaf("config", false, false)],
        vec![],
    );
    assert_eq!(column_height(&o, GridSpec { width: 2 }), 2);
    let ps = plan_column(&o, GridSpec { width: 2 }, 0);
    let s = |x: &str| x.to_string();
    assert_eq!(
        boxes(&ps),
        vec![
            (Category::Title, 132, 108, 372, 168, s("Instruction:"), s("deposit")),
            (Category::Signer, 8, 184, 248, 244, s("Signer:"), s("payer")),
            (Category::Mutable, 8, 252, 248, 312, s("Mutable Account:"), s("vault")),
            (Category::Immutable, 256, 252, 496, 312, s("Immutable Account:"), s("config")),
        ]
    );
}

#[test]
fn arguments_follow_accounts_block() {
    let o = Operation {
        kind: OperationKind::StateMethod,
        name: "State.bump".to_string(),
        accounts: vec![leaf("m", false, true), leaf("i", false, false), leaf("j", false, false)],
        args: vec![arg("amount", "u64"), arg("flag", "bool"), arg("memo", "string")],
    };
    // signer floor 1 row, accounts 2 rows, arguments 2 rows
    assert_eq!(column_height(&o, GridSpec { width: 2 }), 5);
    let ps = plan_column(&o, GridSpec { width: 2 }, 1);
    assert_eq!(ps[0].primary, "State Method:");
    assert_eq!(ps[0].secondary, "State.bump");
    assert_eq!(ps[0].left, 506 + 132);
    let a = &ps[4];
    assert_eq!(a.category, Category::Argument);
    assert_eq!(a.primary, "u64:");
    assert_eq!(a.secondary, "amount");
    assert_eq!((a.left, a.top), (506 + 8, 184 + 3 * 68));
    let c = &ps[6];
    assert_eq!(c.primary, "string:");
    assert_eq!((c.left, c.top), (506 + 8, 184 + 4 * 68));
}

#[test]
fn joined_appends_second_string() {
    assert_eq!(joined("ab", "cd"), "abcd");
    assert_eq!(joined("", "x"), "x");
    assert_eq!(joined("u8", ":"), "u8:");
}

#[test]
fn scenario_taller_column_sets_height() {
    let short = op("short", vec![leaf("a", true, false)], vec![]);
    let tall = op(
        "tall",
        vec![
            leaf("a", true, false),
            leaf("b", false, true),
            leaf("c", false, true),
            leaf("d", false, false),
            leaf("e", false, false),
        ],
        vec![arg("x", "u8")],
    );
    assert_eq!(column_height(&short, GridSpec { width: 2 }), 1);
    assert_eq!(column_height(&tall, GridSpec { width: 2 }), 4);
    let p = program(vec![short, tall]);
    let d = build(&p, GridSpec { width: 2 }).unwrap();
    assert_eq!(d.width, 1010);
    assert_eq!(d.height, 4 * 68 + 200);
    // one separator, reaching the bottom margin
    match &d.primitives[2] {
        DrawPrimitive::FilledRect { top_left, bottom_right, fill } => {
            assert_eq!(*top_left, Point { x: 504, y: 108 });
            assert_eq!(*bottom_right, Point { x: 506, y: 4 * 68 + 200 - 24 });
            assert_eq!(*fill, Rgb { r: 0, g: 0, b: 0 });
        }
        _ => panic!("expected the separator"),
    }
    // the short column's only account box ends well above the canvas bottom
    match &d.primitives[6] {
        DrawPrimitive::FilledRect { top_left, bottom_right, .. } => {
            assert_eq!(*top_left, Point { x: 8, y: 184 });
            assert_eq!(bottom_right.y, 244);
            assert!(bottom_right.y + 3 * 68 < d.height);
        }
        _ => panic!("expected the signer box"),
    }
    // header + separator + short column (2 boxes) + tall column (7 boxes)
    assert_eq!(d.primitives.len(), 2 + 1 + 3 * 2 + 3 * 7);
    assert_eq!(rects(&d.primitives), 1 + 2 + 7);
}
