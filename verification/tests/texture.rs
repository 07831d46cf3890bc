use naqshsmit::draw_modes::draw_threaded_with_zbuffer::new_depth_buffer;
use naqshsmit::draw_modes::draw_threaded_with_zbuffer_textured::{
    draw_triangle_threaded_with_zbuffer_with_texture, shade_threaded_with_zbuffer_with_texture,
    textured_face, uv_triplet,
};
use naqshsmit::image_canvas::Canvas;
use naqshsmit::linear_algebra::{Point2, Point3, TriangleCoords3, UVTriplet, Vec3Unsigned};
use naqshsmit::read_tga::{check_footer, read_tga, Texture, TextureError};
use naqshsmit::wavefront_parser::WavefronObject;

fn tga(width: u8, height: u8, pixels: &[u8]) -> Vec<u8> {
    let mut bytes = vec![0, 0, 2, 0, 0, 0, 0, 0, 0, 0, 0, 0, width, 0, height, 0, 24, 0];
    bytes.extend_from_slice(pixels);
    bytes
}

fn footer(extension: u32, developer: u32) -> Vec<u8> {
    let mut bytes = Vec::new();
    bytes.extend_from_slice(&extension.to_le_bytes());
    bytes.extend_from_slice(&developer.to_le_bytes());
    bytes.extend_from_slice(b"TRUEVISION-XFILE.\0");
    bytes
}

fn texture() -> Texture {
    Texture { data: vec![10, 20, 30, 40], width: 2 }
}

#[test]
fn texels_are_addressed_row_by_row() {
    let t = texture();
    assert_eq!(t.texel(0, 0), 10);
    assert_eq!(t.texel(1, 0), 20);
    assert_eq!(t.texel(0, 1), 30);
    assert_eq!(t.texel(1, 1), 40);
    assert_eq!(t.texel(0, 2), 0);
    assert_eq!(t.texel(-1, -5), 10);
    assert_eq!(t.texel(i32::MAX, i32::MAX), 0);
}

#[test]
fn decoder_hands_out_the_image_data_and_the_width() {
    let bytes = tga(2, 1, &[1, 2, 3, 4, 5, 6]);
    let loaded = read_tga(&bytes).unwrap();
    assert_eq!(loaded.data, vec![1, 2, 3, 4, 5, 6]);
    assert_eq!(loaded.width, 2);
}

#[test]
fn decoder_reports_what_is_no_image() {
    assert_eq!(read_tga(&[]).err(), Some(TextureError::Malformed));
    assert_eq!(read_tga(&[1, 2, 3]).err(), Some(TextureError::Malformed));
}

#[test]
fn color_is_blended_from_the_texels_of_the_corners() {
    let uvs = UVTriplet::new(Point2(0, 0), Point2(1, 0), Point2(0, 1));
    assert_eq!(uvs, UVTriplet::from_vec(vec![Point2(0, 0), Point2(1, 0), Point2(0, 1)]));
    let coords = TriangleCoords3::new(Point3(0, 0, 0), Point3(4, 0, 0), Point3(0, 4, 0));
    let t = texture();
    assert_eq!(uvs.get_color(Point3(0, 0, 0), coords, &t), 10);
    assert_eq!(uvs.get_color(Point3(4, 0, 0), coords, &t), 20);
    assert_eq!(uvs.get_color(Point3(0, 4, 0), coords, &t), 30);
    assert_eq!(uvs.get_color(Point3(1, 1, 0), coords, &t), 17);
    assert_eq!(uvs.get_color(Point3(2, 2, 0), coords, &t), 25);
    assert_eq!(uvs.get_color(Point3(4, 4, 0), coords, &t), 40);
    assert_eq!(uvs.get_color(Point3(-8, 0, 0), coords, &t), 0);
    assert_eq!(uvs.get_color(Point3(100, 0, 0), coords, &t), 255);
}

#[test]
fn textured_fill_tests_the_depth() {
    let uvs = UVTriplet::new(Point2(0, 0), Point2(1, 0), Point2(0, 1));
    let coords = TriangleCoords3::new(Point3(0, 0, 5), Point3(4, 0, 5), Point3(0, 4, 5));
    let t = texture();
    let mut canvas = Canvas::new(6, 6, 99);
    let mut zbuffer = new_depth_buffer(6, 6);
    draw_triangle_threaded_with_zbuffer_with_texture(coords, &mut zbuffer, &mut canvas, &uvs, &t);
    assert_eq!(canvas.get_pixel_impl(0, 0), 10);
    assert_eq!(canvas.get_pixel_impl(1, 1), 17);
    assert_eq!(canvas.get_pixel_impl(4, 4), 40);
    assert_eq!(canvas.get_pixel_impl(5, 5), 99);
    assert_eq!(zbuffer[1 + 6], 5);
    let lower = TriangleCoords3::new(Point3(0, 0, 4), Point3(4, 0, 4), Point3(0, 4, 4));
    let flipped = UVTriplet::new(Point2(1, 1), Point2(1, 1), Point2(1, 1));
    draw_triangle_threaded_with_zbuffer_with_texture(
        lower,
        &mut zbuffer,
        &mut canvas,
        &flipped,
        &t,
    );
    assert_eq!(canvas.get_pixel_impl(1, 1), 17);
}

#[test]
fn texels_of_a_face() {
    let text = b"vt 0.5 0.25\nvt 1.5 0\nvt 0 1.999999\nvt 3\nvt -2 -1\n";
    let mesh = WavefronObject::new(text).unwrap();
    assert_eq!(
        uv_triplet(&mesh, &Vec3Unsigned::new(1, 2, 3)),
        Some(UVTriplet::new(Point2(0, 0), Point2(1, 0), Point2(0, 1)))
    );
    assert_eq!(
        uv_triplet(&mesh, &Vec3Unsigned::new(5, 2, 3)),
        Some(UVTriplet::new(Point2(0, 0), Point2(1, 0), Point2(0, 1)))
    );
    assert_eq!(uv_triplet(&mesh, &Vec3Unsigned::new(1, 2, 4)), None);
    assert_eq!(uv_triplet(&mesh, &Vec3Unsigned::new(1, 2, 6)), None);
    assert_eq!(uv_triplet(&mesh, &Vec3Unsigned::new(0, 2, 3)), None);
}

#[test]
fn textured_shading_of_a_mesh() {
    let text = b"v -1 -1 0\nv 1 -1 0\nv -1 1 0\nvt 0 0\nvt 1 0\nvt 0 1\nf 1/1 2/2 3/3\nf 1 2 3\n";
    let mesh = WavefronObject::new(text).unwrap();
    let mut canvas = Canvas::new(5, 5, 99);
    shade_threaded_with_zbuffer_with_texture(&mesh, &texture(), &mut canvas);
    assert_eq!(canvas.get_pixel_impl(0, 0), 10);
    assert_eq!(canvas.get_pixel_impl(4, 0), 18);
    assert_eq!(canvas.get_pixel_impl(0, 4), 26);
    assert_eq!(canvas.get_pixel_impl(1, 1), 16);
    assert_eq!(canvas.get_pixel_impl(4, 4), 34);
    let mut bare = Canvas::new(5, 5, 99);
    let no_uv = WavefronObject::new(b"v -1 -1 0\nv 1 -1 0\nv -1 1 0\nf 1 2 3\n").unwrap();
    shade_threaded_with_zbuffer_with_texture(&no_uv, &texture(), &mut bare);
    assert_eq!(bare.get_map(), vec![vec![99u8; 5]; 5]);
}

#[test]
fn footer_that_points_past_the_end_is_no_image() {
    let mut bytes = tga(2, 1, &[]);
    bytes.extend_from_slice(&footer(45, 0));
    assert_eq!(bytes.len(), 44);
    assert!(!check_footer(&bytes));
    assert_eq!(read_tga(&bytes).err(), Some(TextureError::Malformed));
    let mut other = tga(2, 1, &[]);
    other.extend_from_slice(&footer(0, u32::MAX));
    assert!(!check_footer(&other));
    assert_eq!(read_tga(&other).err(), Some(TextureError::Malformed));
}

#[test]
fn footer_that_points_into_the_file_is_cut_off_the_image_data() {
    let mut bytes = tga(2, 1, &[1, 2, 3, 4, 5, 6]);
    bytes.extend_from_slice(&footer(0, 0));
    assert!(check_footer(&bytes));
    let loaded = read_tga(&bytes).unwrap();
    assert_eq!(loaded.data, vec![1, 2, 3, 4, 5, 6]);
    assert_eq!(loaded.width, 2);
    let mut with_area = tga(2, 1, &[1, 2, 3, 4, 5, 6, 7, 8]);
    with_area.extend_from_slice(&footer(24, 50));
    assert!(check_footer(&with_area));
    assert_eq!(read_tga(&with_area).unwrap().data, vec![1, 2, 3, 4, 5, 6]);
}

#[test]
fn files_without_a_footer_pass_the_footer_check() {
    assert!(check_footer(&[]));
    assert!(check_footer(&[0u8; 25]));
    assert!(check_footer(&[255u8; 26]));
    let mut almost = footer(u32::MAX, u32::MAX);
    almost[25] = 1;
    assert!(check_footer(&almost));
    assert!(!check_footer(&footer(27, 0)));
    assert!(check_footer(&footer(26, 26)));
}

#[test]
fn every_face_is_drawn_with_its_own_texture_coordinates() {
    let text = b"v -1 -1 0\nv 1 -1 0\nv -1 1 0\nv -1 -1 -0.5\nv 1 -1 -0.5\nv -1 1 -0.5\nvt 0 0\nvt 1 0\nvt 0 1\nvt 1 1\nf 4 5 6\nf 1/4 2/4 3/4\n";
    let mesh = WavefronObject::new(text).unwrap();
    assert_eq!(textured_face(&mesh, &mesh.get_face_impl(0), 5, 5), None);
    assert_eq!(
        textured_face(&mesh, &mesh.get_face_impl(1), 5, 5),
        Some((
            TriangleCoords3::new(Point3(0, 0, 0), Point3(5, 0, 0), Point3(0, 5, 0)),
            UVTriplet::new(Point2(1, 1), Point2(1, 1), Point2(1, 1)),
        ))
    );
    let mut canvas = Canvas::new(5, 5, 99);
    shade_threaded_with_zbuffer_with_texture(&mesh, &texture(), &mut canvas);
    assert_eq!(canvas.get_map(), vec![vec![40u8; 5]; 5]);
}
