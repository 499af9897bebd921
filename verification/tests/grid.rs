use cgmath::{Vector2, Vector3};
use meshgen::{Attribute, AttributeSpec, Grid, GridSamples, Layout, Mesh, MeshError};

fn bits(values: Vec<f32>) -> Vec<u32> {
    values.into_iter().map(f32::to_bits).collect()
}

fn bits2(v: Vector2<f32>) -> meshgen::Vector2 {
    meshgen::Vector2::new(v.x.to_bits(), v.y.to_bits())
}

fn bits3(v: Vector3<f32>) -> meshgen::Vector3 {
    meshgen::Vector3::new(v.x.to_bits(), v.y.to_bits(), v.z.to_bits())
}

fn axis(origin: f32, extent: f32, n: u32) -> Vec<u32> {
    (0..n)
        .map(|i| (origin + extent * (i as f32 / (n as f32 - 1.0))).to_bits())
        .collect()
}

fn samples(grid: &Grid) -> GridSamples {
    let top_left = (
        f32::from_bits(grid.top_left.x),
        f32::from_bits(grid.top_left.y),
    );
    let size = (f32::from_bits(grid.size.x), f32::from_bits(grid.size.y));
    let uv_min = (f32::from_bits(grid.uv_min.x), f32::from_bits(grid.uv_min.y));
    let uv_max = (f32::from_bits(grid.uv_max.x), f32::from_bits(grid.uv_max.y));
    GridSamples {
        x: axis(top_left.0, size.0, grid.n_vertices_width),
        y: axis(top_left.1, size.1, grid.n_vertices_height),
        u: axis(uv_min.0, uv_max.0 - uv_min.0, grid.n_vertices_width),
        v: axis(uv_min.1, uv_max.1 - uv_min.1, grid.n_vertices_height),
    }
}

fn convert(grid: Grid) -> Result<Mesh, MeshError> {
    let samples = samples(&grid);
    Mesh::from_grid(grid, &samples)
}

#[test]
fn test_grid() {
    let mut grid = Grid::new();
    grid.top_left = bits2(Vector2::new(1.0, 2.0));
    grid.size = bits2(Vector2::new(6.0, 6.0));
    grid.n_vertices_width = 3;
    grid.n_vertices_height = 2;

    let mesh: Mesh = convert(grid).unwrap();
    assert_eq!(mesh, Mesh {
        layout: Layout::position_texcoord_normal(),
        vertex_data: bits(vec![
            1.0, 2.0, 0.0,  0.0, 0.0,  0.0, 0.0, 1.0,
            4.0, 2.0, 0.0,  0.5, 0.0,  0.0, 0.0, 1.0,
            7.0, 2.0, 0.0,  1.0, 0.0,  0.0, 0.0, 1.0,
            1.0, 8.0, 0.0,  0.0, 1.0,  0.0, 0.0, 1.0,
            4.0, 8.0, 0.0,  0.5, 1.0,  0.0, 0.0, 1.0,
            7.0, 8.0, 0.0,  1.0, 1.0,  0.0, 0.0, 1.0,
        ]),
        element_data: vec![
            0, 3, 1,
            1, 3, 4,
            1, 4, 2,
            2, 4, 5
        ]
    })
}

#[test]
fn test_grid_3_3() {
    let mut grid = Grid::new();
    grid.layout = Layout::position();
    grid.n_vertices_width = 3;
    grid.n_vertices_height = 3;

    let mesh: Mesh = convert(grid).unwrap();
    assert_eq!(mesh, Mesh {
        layout: Layout::position(),
        vertex_data: bits(vec![
            0.0, 0.0, 0.0,
            0.5, 0.0, 0.0,
            1.0, 0.0, 0.0,
            0.0, 0.5, 0.0,
            0.5, 0.5, 0.0,
            1.0, 0.5, 0.0,
            0.0, 1.0, 0.0,
            0.5, 1.0, 0.0,
            1.0, 1.0, 0.0]),
        element_data: vec![
            0, 3, 1,
            1, 3, 4,
            1, 4, 2,
            2, 4, 5,
            3, 6, 4,
            4, 6, 7,
            4, 7, 5,
            5, 7, 8]
    })
}

#[test]
fn grid_defaults() {
    let grid = Grid::new();
    assert_eq!(grid.layout, Layout::position_texcoord_normal());
    assert_eq!(grid.top_left, bits2(Vector2::new(0.0, 0.0)));
    assert_eq!(grid.size, bits2(Vector2::new(1.0, 1.0)));
    assert_eq!(grid.n_vertices_width, 2);
    assert_eq!(grid.n_vertices_height, 2);
    assert_eq!(grid.uv_min, bits2(Vector2::new(0.0, 0.0)));
    assert_eq!(grid.uv_max, bits2(Vector2::new(1.0, 1.0)));
    assert_eq!(grid.normal, bits3(Vector3::new(0.0, 0.0, 1.0)));
    assert_eq!(grid.position_attribute, "position");
    assert_eq!(grid.texcoord_attribute, "texcoord");
    assert_eq!(grid.normal_attribute, "normal");
}

#[test]
fn grid_default_is_one_quad() {
    let mesh = convert(Grid::new()).unwrap();
    assert_eq!(mesh.vertex_data, bits(vec![
        0.0, 0.0, 0.0,  0.0, 0.0,  0.0, 0.0, 1.0,
        1.0, 0.0, 0.0,  1.0, 0.0,  0.0, 0.0, 1.0,
        0.0, 1.0, 0.0,  0.0, 1.0,  0.0, 0.0, 1.0,
        1.0, 1.0, 0.0,  1.0, 1.0,  0.0, 0.0, 1.0,
    ]));
    assert_eq!(mesh.element_data, vec![0, 2, 1, 1, 2, 3]);
}

#[test]
fn grid_3_2_first_and_last_vertex() {
    let mut grid = Grid::new();
    grid.top_left = bits2(Vector2::new(1.0, 2.0));
    grid.size = bits2(Vector2::new(6.0, 6.0));
    grid.n_vertices_width = 3;
    grid.n_vertices_height = 2;
    let mesh = convert(grid).unwrap();
    assert_eq!(mesh.vertex_data.len(), 6 * 8);
    assert_eq!(mesh.vertex_data[0..8].to_vec(), bits(vec![1.0, 2.0, 0.0, 0.0, 0.0, 0.0, 0.0, 1.0]));
    assert_eq!(mesh.vertex_data[40..48].to_vec(), bits(vec![7.0, 8.0, 0.0, 1.0, 1.0, 0.0, 0.0, 1.0]));
    assert_eq!(mesh.element_data, vec![0, 3, 1, 1, 3, 4, 1, 4, 2, 2, 4, 5]);
}

#[test]
fn grid_skips_the_normal_where_the_layout_has_none() {
    let mut grid = Grid::new();
    grid.layout = Layout::position_texcoord();
    grid.top_left = bits2(Vector2::new(1.0, 2.0));
    grid.size = bits2(Vector2::new(6.0, 6.0));
    grid.n_vertices_width = 3;
    grid.n_vertices_height = 2;
    let mesh = convert(grid).unwrap();
    assert_eq!(mesh.layout, Layout::position_texcoord());
    assert_eq!(mesh.vertex_data, bits(vec![
        1.0, 2.0, 0.0,  0.0, 0.0,
        4.0, 2.0, 0.0,  0.5, 0.0,
        7.0, 2.0, 0.0,  1.0, 0.0,
        1.0, 8.0, 0.0,  0.0, 1.0,
        4.0, 8.0, 0.0,  0.5, 1.0,
        7.0, 8.0, 0.0,  1.0, 1.0,
    ]));
    assert_eq!(mesh.element_data, vec![0, 3, 1, 1, 3, 4, 1, 4, 2, 2, 4, 5]);
}

#[test]
fn grid_leaves_other_attributes_zero() {
    let mut grid = Grid::new();
    grid.layout = Layout::new(vec![
        AttributeSpec("color".to_string(), 4),
        AttributeSpec("normal".to_string(), 3),
    ])
    .unwrap();
    grid.normal = bits3(Vector3::new(0.0, -1.0, 0.0));
    let mesh = convert(grid).unwrap();
    let record = bits(vec![0.0, 0.0, 0.0, 0.0, 0.0, -1.0, 0.0]);
    assert_eq!(mesh.vertex_data, [record.clone(), record.clone(), record.clone(), record].concat());
}

#[test]
fn grid_with_no_attribute_of_its_names_is_all_zero() {
    let mut grid = Grid::new();
    grid.position_attribute = "p".to_string();
    grid.texcoord_attribute = "t".to_string();
    grid.normal_attribute = "n".to_string();
    let mesh = convert(grid).unwrap();
    assert_eq!(mesh.vertex_data, vec![0u32; 4 * 8]);
    assert_eq!(mesh.element_data, vec![0, 2, 1, 1, 2, 3]);
}

#[test]
fn grid_uses_the_attribute_names_it_is_given() {
    let mut grid = Grid::new();
    grid.layout = Layout::new(vec![
        AttributeSpec("uv".to_string(), 2),
        AttributeSpec("pos".to_string(), 3),
    ])
    .unwrap();
    grid.position_attribute = "pos".to_string();
    grid.texcoord_attribute = "uv".to_string();
    let mesh = convert(grid).unwrap();
    assert_eq!(mesh.vertex_data, bits(vec![
        0.0, 0.0,  0.0, 0.0, 0.0,
        1.0, 0.0,  1.0, 0.0, 0.0,
        0.0, 1.0,  0.0, 1.0, 0.0,
        1.0, 1.0,  1.0, 1.0, 0.0,
    ]));
}

#[test]
fn grid_refuses_an_attribute_of_the_wrong_width() {
    let mut grid = Grid::new();
    grid.layout = Layout::new(vec![AttributeSpec("position".to_string(), 2)]).unwrap();
    assert_eq!(convert(grid), Err(MeshError::AttributeSizeMismatch));

    let mut grid = Grid::new();
    grid.layout = Layout::new(vec![
        AttributeSpec("position".to_string(), 3),
        AttributeSpec("texcoord".to_string(), 3),
    ])
    .unwrap();
    assert_eq!(convert(grid), Err(MeshError::AttributeSizeMismatch));
}

#[test]
fn grid_refuses_an_attribute_outside_the_record() {
    let mut grid = Grid::new();
    grid.layout = Layout {
        attributes: vec![Attribute { name: "position".to_string(), offset: 1, size: 3 }],
        stride: 3,
    };
    assert_eq!(convert(grid), Err(MeshError::IndexOutOfBounds));
}

#[test]
fn grid_reports_the_first_attribute_that_is_wrong() {
    let mut grid = Grid::new();
    grid.layout = Layout {
        attributes: vec![
            Attribute { name: "position".to_string(), offset: 6, size: 3 },
            Attribute { name: "texcoord".to_string(), offset: 0, size: 5 },
        ],
        stride: 8,
    };
    assert_eq!(convert(grid), Err(MeshError::IndexOutOfBounds));
}

#[test]
fn grid_refuses_samples_of_another_resolution() {
    let mut grid = Grid::new();
    let two = samples(&grid);
    grid.n_vertices_width = 3;
    assert_eq!(Mesh::from_grid(grid, &two), Err(MeshError::IndexOutOfBounds));
}

#[test]
fn grid_later_attribute_wins_where_two_overlap() {
    let mut grid = Grid::new();
    grid.layout = Layout {
        attributes: vec![
            Attribute { name: "position".to_string(), offset: 0, size: 3 },
            Attribute { name: "normal".to_string(), offset: 2, size: 3 },
        ],
        stride: 5,
    };
    grid.normal = bits3(Vector3::new(5.0, 6.0, 7.0));
    let mesh = convert(grid).unwrap();
    assert_eq!(mesh.vertex_data[5..10].to_vec(), bits(vec![1.0, 0.0, 5.0, 6.0, 7.0]));
}

#[test]
fn grid_conversion_is_repeatable() {
    let make = || {
        let mut grid = Grid::new();
        grid.top_left = bits2(Vector2::new(-3.5, 0.25));
        grid.size = bits2(Vector2::new(2.0, 9.0));
        grid.n_vertices_width = 4;
        grid.n_vertices_height = 5;
        grid
    };
    let first = convert(make()).unwrap();
    let second = convert(make()).unwrap();
    assert_eq!(first, second);
    assert_eq!(first.vertex_data.len(), 4 * 5 * 8);
    assert_eq!(first.element_data.len(), 3 * 4 * 6);
}

#[test]
fn grid_indices_stay_within_the_vertices() {
    let mut grid = Grid::new();
    grid.n_vertices_width = 7;
    grid.n_vertices_height = 3;
    let mesh = convert(grid).unwrap();
    assert_eq!(mesh.element_data.len(), 6 * 2 * 6);
    assert!(mesh.element_data.iter().all(|&i| i < 21));
    assert_eq!(mesh.element_data[66..72].to_vec(), vec![12, 19, 13, 13, 19, 20]);
}
