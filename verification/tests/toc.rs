use grimoire::markdown::toc::Toc;

fn depths(toc: &Toc) -> Vec<u8> {
    let mut out = Vec::new();
    for node in toc.roots() {
        out.push(node.depth);
    }
    out
}

#[test]
fn toc_new_is_empty() {
    let toc = Toc::new();
    assert_eq!(toc.len(), 0);
    assert!(toc.roots().is_empty());
    for level in 0..6 {
        assert!(!toc.is_open(level));
    }
}

#[test]
fn toc_nests_headings_one_level_below_parent() {
    let mut toc = Toc::new();
    toc.insert(1, "a".to_string(), "A".to_string());
    toc.insert(2, "b".to_string(), "B".to_string());
    toc.insert(2, "c".to_string(), "C".to_string());
    assert_eq!(toc.len(), 3);
    // `roots` gives the headings without children: the two second-level ones.
    let roots = toc.roots();
    assert_eq!(roots.len(), 2);
    assert_eq!(roots[0].slug, "b");
    assert_eq!(roots[1].slug, "c");
    assert!(roots.iter().all(|n| n.depth == 2));
}

#[test]
fn toc_children_of_parent_in_order() {
    let mut toc = Toc::new();
    toc.insert(1, "a".to_string(), "A".to_string());
    toc.insert(2, "b".to_string(), "B".to_string());
    toc.insert(3, "c".to_string(), "C".to_string());
    toc.insert(2, "d".to_string(), "D".to_string());
    let roots = toc.roots();
    // c and d are childless; a and b have children.
    assert_eq!(roots.iter().map(|n| n.slug.as_str()).collect::<Vec<_>>(), vec!["c", "d"]);
    // Find a through the children of nobody: it is the only depth-1 heading, so
    // check the children of b (c) through is_root of the others.
    let c = roots[0];
    assert!(c.is_root());
    assert!(toc.children(c).is_empty());
}

#[test]
fn toc_skipped_level_is_closed_up() {
    let mut toc = Toc::new();
    toc.insert(1, "top".to_string(), "Top".to_string());
    toc.insert(3, "deep".to_string(), "Deep".to_string());
    // The level-3 heading goes directly below the level-1 one, at level 2.
    assert_eq!(depths(&toc), vec![2]);
    assert!(toc.is_open(1));
    assert!(toc.is_open(2));
    assert!(!toc.is_open(3));
}

#[test]
fn toc_heading_without_parent_keeps_level() {
    let mut toc = Toc::new();
    toc.insert(3, "x".to_string(), "X".to_string());
    assert_eq!(depths(&toc), vec![3]);
    toc.insert(1, "y".to_string(), "Y".to_string());
    assert_eq!(depths(&toc), vec![3, 1]);
}

#[test]
fn toc_fits_rejects_out_of_range_levels() {
    let toc = Toc::new();
    assert!(!toc.fits(0));
    assert!(!toc.fits(7));
    assert!(toc.fits(1));
    assert!(toc.fits(5));
    // A lone level-6 heading would be placed at level 6, past the last slot.
    assert!(!toc.fits(6));
}

#[test]
fn toc_level_six_fits_below_a_shallow_heading() {
    let mut toc = Toc::new();
    toc.insert(1, "a".to_string(), "A".to_string());
    assert!(toc.fits(6));
    toc.insert(6, "f".to_string(), "F".to_string());
    assert_eq!(depths(&toc), vec![2]);
}

#[test]
fn toc_level_six_below_level_five_does_not_fit() {
    let mut toc = Toc::new();
    toc.insert(5, "e".to_string(), "E".to_string());
    assert!(!toc.fits(6));
}

#[test]
fn toc_insert_keeps_earlier_headings() {
    let mut toc = Toc::new();
    toc.insert(2, "a".to_string(), "A".to_string());
    toc.insert(4, "b".to_string(), "B".to_string());
    let roots = toc.roots();
    assert_eq!(roots.len(), 1);
    assert_eq!(roots[0].slug, "b");
    assert_eq!(roots[0].text, "B");
    assert_eq!(roots[0].depth, 3);
}
