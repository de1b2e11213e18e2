use nvim_gtk::nvim::event::GridLineCell;
use nvim_gtk::nvim::ext_line_grid::ExtLineGridMap;

fn cell(text: &str) -> GridLineCell {
    GridLineCell { text: text.to_owned(), highlight_id: Some(7), repeat: None }
}

fn texts(grids: &ExtLineGridMap, grid: u64) -> Vec<Vec<String>> {
    let g = grids.get(&grid).unwrap();
    g.buffer().iter().map(|l| l.columns().iter().map(|c| c.text.clone()).collect()).collect()
}

#[test]
fn resize_keeps_shared_cells_and_blanks_the_rest() {
    let mut grids = ExtLineGridMap::new();
    grids.grid_resize(&1, 3, 2);
    grids.grid_line(&1, 0, 0, &[cell("a"), cell("b"), cell("c")]);
    grids.grid_line(&1, 1, 0, &[cell("d"), cell("e"), cell("f")]);
    grids.grid_cursor_goto(&1, 1, 2);

    grids.grid_resize(&1, 2, 3);
    let g = grids.get(&1).unwrap();
    assert_eq!(g.columns(), 2);
    assert_eq!(g.rows(), 3);
    assert_eq!(g.cursor_position().row, 1);
    assert_eq!(g.cursor_position().column, 2);
    assert_eq!(
        texts(&grids, 1),
        vec![
            vec!["a".to_owned(), "b".to_owned()],
            vec!["d".to_owned(), "e".to_owned()],
            vec![" ".to_owned(), " ".to_owned()],
        ]
    );
    let blank = &grids.get(&1).unwrap().buffer()[2].columns()[0];
    assert_eq!(blank.highlight_id, None);
    assert_eq!(blank.repeat, None);
    assert_eq!(grids.get(&1).unwrap().buffer()[0].columns()[0].highlight_id, Some(7));

    grids.grid_resize(&1, 4, 1);
    assert_eq!(texts(&grids, 1), vec![vec!["a".to_owned(), "b".to_owned(), " ".to_owned(), " ".to_owned()]]);
}

#[test]
fn resize_to_same_size_changes_nothing() {
    let mut grids = ExtLineGridMap::new();
    grids.grid_resize(&2, 2, 2);
    grids.grid_line(&2, 1, 1, &[cell("x")]);
    let before = texts(&grids, 2);
    grids.grid_resize(&2, 2, 2);
    assert_eq!(texts(&grids, 2), before);
}
