use naqshsmit::linear_algebra::{Point3, Vec3Unsigned};
use naqshsmit::wavefront_parser::{
    FaceElement, SpaceVertex, TextureUV, Vertex, WavefronObject,
};
use naqshsmit::wavefront_text::{parse_decimal, parse_index, split_words, LoadError};

#[test]
fn test_wave_front() {
    let mut text = String::new();
    for i in 0..1258 {
        text.push_str(&format!("v 0.{:06} -0.5 0.25\n", i));
    }
    for i in 0..2492 {
        text.push_str(&format!("f {}/1/1 {}/1/1 {}/1/1\n", i % 1258 + 1, 2, 3));
    }
    let model = WavefronObject::new(text.as_bytes()).unwrap();

    let n_faces = model.get_n_faces();
    let n_vertices = model.get_n_vertices();

    assert_eq!(n_faces, 2492);

    assert_eq!(n_vertices, 1258);
}

#[test]
fn parser_reads_vertices_and_faces() {
    let text = b"# a triangle\nv 0.5 -0.25 1 \nv 1 1 1\r\nv -1 -1 0.000001\nvt 0.5 0.5\nf 1/1 2/1 3/1\n";
    let mesh = WavefronObject::new(text).unwrap();
    assert_eq!(mesh.get_n_vertices(), 3);
    assert_eq!(mesh.get_len_vertices(), 3);
    assert_eq!(mesh.get_n_faces(), 1);
    assert_eq!(mesh.get_vertex_at_index(&1).unwrap().xyz, Point3(500_000, -250_000, 1_000_000));
    assert_eq!(mesh.get_vertex_at_index(&3).unwrap().xyz, Point3(-1_000_000, -1_000_000, 1));
    assert_eq!(mesh.get_vertex_impl(1), Vertex::new((1_000_000, 1_000_000, 1_000_000), None));
    assert!(mesh.get_vertex_at_index(&0).is_none());
    assert!(mesh.get_vertex_at_index(&4).is_none());
    assert_eq!(mesh.get_texture_at_index(&1), Some(&TextureUV::new(500_000, Some(500_000), None)));
    assert!(mesh.get_texture_at_index(&2).is_none());
    assert_eq!(mesh.get_vert_triplets_from_face_elements(), vec![Vec3Unsigned::new(1, 2, 3)]);
    assert_eq!(mesh.get_texture_triplets_from_elements(), vec![Vec3Unsigned::new(1, 1, 1)]);
}

#[test]
fn parser_reads_the_last_line_without_a_line_break() {
    let mesh = WavefronObject::new(b"v 1 2 3 0.5").unwrap();
    assert_eq!(
        mesh.get_vertex_at_index(&1),
        Some(&Vertex::new((1_000_000, 2_000_000, 3_000_000), Some(500_000)))
    );
    assert_eq!(WavefronObject::new(b"").unwrap().get_n_vertices(), 0);
    assert_eq!(WavefronObject::new(b"\n\n  \n").unwrap().get_n_faces(), 0);
}

#[test]
fn parser_passes_over_lines_without_a_keyword() {
    let text = b"o head\ns 1\nvx 1 2 3\nV 1 2 3\ng x\nusemtl m\n#v 1 2 3\nv 1 2 3 4 5 6\n";
    let mesh = WavefronObject::new(text).unwrap();
    assert_eq!(mesh.get_n_vertices(), 1);
    assert_eq!(
        mesh.get_vertex_at_index(&1),
        Some(&Vertex::new((1_000_000, 2_000_000, 3_000_000), Some(4_000_000)))
    );
}

#[test]
fn parser_reads_faces_with_omitted_parts() {
    let text = b"f 1 2 3\nf 1/2 3/4 5/6\nf 1//3 4//6 7//9\nf 1/2/3 4/5/6 7/8/9 10/11/12\nf 1 2\nf\nf 1/2/3/4 5 6/\n";
    let mesh = WavefronObject::new(text).unwrap();
    assert_eq!(mesh.get_n_faces(), 5);
    assert_eq!(
        mesh.get_vert_triplets_from_face_elements(),
        vec![
            Vec3Unsigned::new(1, 2, 3),
            Vec3Unsigned::new(1, 3, 5),
            Vec3Unsigned::new(1, 4, 7),
            Vec3Unsigned::new(1, 4, 7),
            Vec3Unsigned::new(1, 5, 6),
        ]
    );
    assert_eq!(
        mesh.get_texture_triplets_from_elements(),
        vec![Vec3Unsigned::new(2, 4, 6), Vec3Unsigned::new(2, 5, 8)]
    );
}

#[test]
fn parser_reports_malformed_records() {
    assert_eq!(WavefronObject::new(b"v 1 x 3\n").err(), Some(LoadError::MalformedNumber));
    assert_eq!(WavefronObject::new(b"v 1 2\n").err(), Some(LoadError::MissingField));
    assert_eq!(WavefronObject::new(b"v 1 2 x\nv 1").err(), Some(LoadError::MalformedNumber));
    assert_eq!(WavefronObject::new(b"v x 2\n").err(), Some(LoadError::MissingField));
    assert_eq!(WavefronObject::new(b"v 1 2 5000\n").err(), Some(LoadError::OutOfRange));
    assert_eq!(WavefronObject::new(b"v 1 2 3 x\n").err(), Some(LoadError::MalformedNumber));
    assert_eq!(WavefronObject::new(b"vt\n").err(), Some(LoadError::MissingField));
    assert_eq!(WavefronObject::new(b"vt 0.5 0.5 0.5.5\n").err(), Some(LoadError::MalformedNumber));
    assert_eq!(WavefronObject::new(b"vn 1 2\n").err(), Some(LoadError::MissingField));
    assert_eq!(WavefronObject::new(b"vn 1 2 1e5\n").err(), Some(LoadError::OutOfRange));
    assert_eq!(WavefronObject::new(b"vn 1 2 1e\n").err(), Some(LoadError::MalformedNumber));
    assert_eq!(WavefronObject::new(b"vp x\n").err(), Some(LoadError::MalformedNumber));
    assert_eq!(WavefronObject::new(b"l 1 2 -3\n").err(), Some(LoadError::MalformedNumber));
    assert_eq!(WavefronObject::new(b"f 1 2 x\n").err(), Some(LoadError::MalformedNumber));
    assert_eq!(WavefronObject::new(b"f 1/a 2 3\n").err(), Some(LoadError::MalformedNumber));
    assert!(WavefronObject::new(b"vn 1 2 3\nvp 1\nvp 1 2 3\nl\nl 1 2 3\n").is_ok());
}

#[test]
fn words_of_a_line() {
    assert_eq!(split_words(b"  v  1.5\t-2 \r"), vec![b"v".to_vec(), b"1.5".to_vec(), b"-2".to_vec()]);
    assert!(split_words(b"").is_empty());
    assert!(split_words(b" \t ").is_empty());
    assert_eq!(split_words(b"f"), vec![b"f".to_vec()]);
}

#[test]
fn numbers_that_words_write() {
    assert_eq!(parse_decimal(&b"1".to_vec()), Ok(1_000_000));
    assert_eq!(parse_decimal(&b"-0.000581696".to_vec()), Ok(-581));
    assert_eq!(parse_decimal(&b"+12.5".to_vec()), Ok(12_500_000));
    assert_eq!(parse_decimal(&b".5".to_vec()), Ok(500_000));
    assert_eq!(parse_decimal(&b"5.".to_vec()), Ok(5_000_000));
    assert_eq!(parse_decimal(&b"-0".to_vec()), Ok(0));
    assert_eq!(parse_decimal(&b"0.9999999".to_vec()), Ok(999_999));
    assert_eq!(parse_decimal(&b"0001073.741823".to_vec()), Ok(1_073_741_823));
    assert_eq!(parse_decimal(&b"1073.741824".to_vec()), Err(LoadError::OutOfRange));
    assert_eq!(parse_decimal(&b"-1073.741824".to_vec()), Err(LoadError::OutOfRange));
    assert_eq!(
        parse_decimal(&b"99999999999999999999999999999999".to_vec()),
        Err(LoadError::OutOfRange)
    );
    assert_eq!(parse_decimal(&b"".to_vec()), Err(LoadError::MalformedNumber));
    assert_eq!(parse_decimal(&b".".to_vec()), Err(LoadError::MalformedNumber));
    assert_eq!(parse_decimal(&b"-".to_vec()), Err(LoadError::MalformedNumber));
    assert_eq!(parse_decimal(&b"1.2.3".to_vec()), Err(LoadError::MalformedNumber));
    assert_eq!(parse_decimal(&b"1e".to_vec()), Err(LoadError::MalformedNumber));
    assert_eq!(parse_decimal(&b"1e+".to_vec()), Err(LoadError::MalformedNumber));
    assert_eq!(parse_decimal(&b"e5".to_vec()), Err(LoadError::MalformedNumber));
    assert_eq!(parse_decimal(&b".e5".to_vec()), Err(LoadError::MalformedNumber));
    assert_eq!(parse_decimal(&b"1e5x".to_vec()), Err(LoadError::MalformedNumber));
    assert_eq!(parse_decimal(&b"1e1.5".to_vec()), Err(LoadError::MalformedNumber));
    assert_eq!(parse_decimal(&b"inf".to_vec()), Err(LoadError::MalformedNumber));
    assert_eq!(parse_decimal(&b"nan".to_vec()), Err(LoadError::MalformedNumber));
    assert_eq!(parse_decimal(&b"99999x".to_vec()), Err(LoadError::MalformedNumber));
    assert_eq!(parse_decimal(&b"--1".to_vec()), Err(LoadError::MalformedNumber));
}

#[test]
fn numbers_with_an_exponent() {
    assert_eq!(parse_decimal(&b"1e3".to_vec()), Ok(1_000_000_000));
    assert_eq!(parse_decimal(&b"1e4".to_vec()), Err(LoadError::OutOfRange));
    assert_eq!(parse_decimal(&b"1.5e-3".to_vec()), Ok(1_500));
    assert_eq!(parse_decimal(&b"-4.37114e-08".to_vec()), Ok(0));
    assert_eq!(parse_decimal(&b"-4.37114e-05".to_vec()), Ok(-43));
    assert_eq!(parse_decimal(&b"2.5E2".to_vec()), Ok(250_000_000));
    assert_eq!(parse_decimal(&b"+.25e+1".to_vec()), Ok(2_500_000));
    assert_eq!(parse_decimal(&b"5.e0".to_vec()), Ok(5_000_000));
    assert_eq!(parse_decimal(&b"0.000001e6".to_vec()), Ok(1_000_000));
    assert_eq!(parse_decimal(&b"1e-6".to_vec()), Ok(1));
    assert_eq!(parse_decimal(&b"1e-7".to_vec()), Ok(0));
    assert_eq!(parse_decimal(&b"9e-7".to_vec()), Ok(0));
    assert_eq!(
        parse_decimal(&b"123456789012345678901234567890e-27".to_vec()),
        Ok(123_456_789)
    );
    assert_eq!(
        parse_decimal(&b"1e-99999999999999999999999999999999999999999".to_vec()),
        Ok(0)
    );
    assert_eq!(
        parse_decimal(&b"0.000e99999999999999999999999999999999999999999".to_vec()),
        Ok(0)
    );
    assert_eq!(
        parse_decimal(&b"1e99999999999999999999999999999999999999999".to_vec()),
        Err(LoadError::OutOfRange)
    );
    assert_eq!(parse_decimal(&b"0.0000000001e13".to_vec()), Ok(1_000_000_000));
    assert_eq!(parse_decimal(&b"1073741823e-6".to_vec()), Ok(1_073_741_823));
    assert_eq!(parse_decimal(&b"1073741824e-6".to_vec()), Err(LoadError::OutOfRange));
}

#[test]
fn indices_that_words_write() {
    assert_eq!(parse_index(&b"0".to_vec()), Some(0));
    assert_eq!(parse_index(&b"+17".to_vec()), Some(17));
    assert_eq!(parse_index(&b"007".to_vec()), Some(7));
    assert_eq!(parse_index(&b"18446744073709551615".to_vec()), Some(usize::MAX));
    assert_eq!(parse_index(&b"18446744073709551616".to_vec()), None);
    assert_eq!(parse_index(&b"".to_vec()), None);
    assert_eq!(parse_index(&b"+".to_vec()), None);
    assert_eq!(parse_index(&b"-1".to_vec()), None);
    assert_eq!(parse_index(&b"1.0".to_vec()), None);
}

#[test]
fn records_by_hand() {
    let uv = TextureUV::new(1, Some(2), None);
    assert_eq!(uv.unravel_uv_impl(), (1, 2));
    let space = SpaceVertex::new(1, None, Some(3));
    assert_eq!((space.u, space.v, space.w), (1, None, Some(3)));
    let face = FaceElement::new(
        (Some(1), Some(2), Some(3)),
        (None, None, None),
        (Some(7), None, Some(9)),
    );
    assert_eq!(face.vertex_triplet, (Some(1), Some(2), Some(3)));
    assert_eq!(face.texture_triplet, (None, None, None));
    assert_eq!(face.normal_triplet, (Some(7), None, Some(9)));
}
