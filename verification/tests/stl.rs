use tw3d::ascii::take_number;
use tw3d::{parse_ascii_stl, parse_binary_stl, parse_stl};
use tw3d::{BinaryError, DecodeError, Expected, Scalar, TextError};

fn bits(value: f32) -> Scalar {
    Scalar::from_bits(value.to_bits())
}

fn binary_file(triangles: &[[f32; 12]]) -> Vec<u8> {
    let mut data = vec![0u8; 80];
    data.extend_from_slice(&(triangles.len() as u32).to_le_bytes());
    for triangle in triangles {
        for value in triangle {
            data.extend_from_slice(&value.to_le_bytes());
        }
        data.extend_from_slice(&[0u8, 0u8]);
    }
    data
}

#[test]
fn test_parse_binary_header() {
    let mut data = vec![0u8; 84];
    // Set triangle count to 0
    data[80..84].copy_from_slice(&0u32.to_le_bytes());

    let result = parse_binary_stl(&data);
    assert!(result.is_ok());
    let mesh = result.unwrap();
    assert_eq!(mesh.triangles.len(), 0);
}

#[test]
fn binary_round_trip_count() {
    for n in 0..7usize {
        let triangles: Vec<[f32; 12]> = (0..n)
            .map(|i| {
                let f = i as f32;
                [0.0, 0.0, 1.0, f, 0.0, 0.0, f + 1.0, 0.0, 0.0, f, 1.0, 0.0]
            })
            .collect();
        let data = binary_file(&triangles);
        assert_eq!(data.len(), 84 + 50 * n);
        let mesh = parse_binary_stl(&data).unwrap();
        assert_eq!(mesh.triangles.len(), n);
        assert_eq!(mesh.len(), n);
    }
}

#[test]
fn binary_values_are_read_little_endian() {
    let data = binary_file(&[[0.5, -0.25, 1.0, 1.0, 2.0, 3.0, 4.0, 5.0, 6.0, 7.0, 8.0, 9.5]]);
    let mesh = parse_binary_stl(&data).unwrap();
    let t = &mesh.triangles[0];
    for v in t.vertices.iter() {
        assert_eq!(v.normal.x, bits(0.5));
        assert_eq!(v.normal.y, bits(-0.25));
        assert_eq!(v.normal.z, bits(1.0));
    }
    assert_eq!(t.vertices[0].position.x.to_bits(), 1.0f32.to_bits());
    assert_eq!(t.vertices[0].position.y.to_bits(), 2.0f32.to_bits());
    assert_eq!(t.vertices[0].position.z.to_bits(), 3.0f32.to_bits());
    assert_eq!(t.vertices[1].position.x.to_bits(), 4.0f32.to_bits());
    assert_eq!(t.vertices[1].position.y.to_bits(), 5.0f32.to_bits());
    assert_eq!(t.vertices[1].position.z.to_bits(), 6.0f32.to_bits());
    assert_eq!(t.vertices[2].position.x.to_bits(), 7.0f32.to_bits());
    assert_eq!(t.vertices[2].position.y.to_bits(), 8.0f32.to_bits());
    assert_eq!(t.vertices[2].position.z.to_bits(), 9.5f32.to_bits());
}

#[test]
fn binary_too_small() {
    assert_eq!(parse_binary_stl(&[]).unwrap_err(), BinaryError::TooSmall { length: 0 });
    assert_eq!(parse_binary_stl(&[0u8; 83]).unwrap_err(), BinaryError::TooSmall { length: 83 });
}

#[test]
fn binary_truncation_is_detected() {
    let data = binary_file(&[
        [0.0, 0.0, 1.0, 0.0, 0.0, 0.0, 1.0, 0.0, 0.0, 0.0, 1.0, 0.0],
        [0.0, 0.0, 1.0, 0.0, 0.0, 0.0, 1.0, 0.0, 0.0, 0.0, 1.0, 0.0],
    ]);
    assert!(parse_binary_stl(&data).is_ok());
    for kept in 0..data.len() {
        let result = parse_binary_stl(&data[..kept]);
        if kept < 84 {
            assert_eq!(result.unwrap_err(), BinaryError::TooSmall { length: kept });
        } else {
            assert_eq!(result.unwrap_err(), BinaryError::Truncated { declared: 2, length: kept });
        }
    }
}

#[test]
fn binary_trailing_bytes_are_ignored() {
    let mut data =
        binary_file(&[[0.0, 0.0, 1.0, 0.0, 0.0, 0.0, 1.0, 0.0, 0.0, 0.0, 1.0, 0.0]]);
    data.extend_from_slice(&[1, 2, 3]);
    assert_eq!(parse_binary_stl(&data).unwrap().triangles.len(), 1);
}

#[test]
fn binary_non_finite_corner_is_rejected() {
    let good = [0.0, 0.0, 1.0, 0.0, 0.0, 0.0, 1.0, 0.0, 0.0, 0.0, 1.0, 0.0];
    let mut nan = good;
    nan[7] = f32::NAN;
    let mut inf = good;
    inf[11] = f32::NEG_INFINITY;
    assert_eq!(
        parse_binary_stl(&binary_file(&[good, nan, inf])).unwrap_err(),
        BinaryError::NonFinite { triangle: 1 }
    );
    assert_eq!(
        parse_binary_stl(&binary_file(&[good, good, inf])).unwrap_err(),
        BinaryError::NonFinite { triangle: 2 }
    );
    // a normal may hold anything
    let mut odd_normal = good;
    odd_normal[0] = f32::NAN;
    assert!(parse_binary_stl(&binary_file(&[odd_normal])).is_ok());
}

const ONE_FACET: &str = "solid\n facet normal 0 0 1\n  outer loop\n   vertex 0 0 0\n   vertex 1 0 0\n   vertex 0 1 0\n  endloop\n endfacet\nendsolid\n";

#[test]
fn ascii_single_facet() {
    let mesh = parse_ascii_stl(ONE_FACET).unwrap();
    assert_eq!(mesh.triangles.len(), 1);
    let t = &mesh.triangles[0];
    assert_eq!(t.vertices[0].position.x, bits(0.0));
    assert_eq!(t.vertices[1].position.x, bits(1.0));
    assert_eq!(t.vertices[2].position.y, bits(1.0));
    for v in t.vertices.iter() {
        assert_eq!(v.normal.x, bits(0.0));
        assert_eq!(v.normal.y, bits(0.0));
        assert_eq!(v.normal.z, bits(1.0));
    }
}

#[test]
fn ascii_empty_solid() {
    assert_eq!(parse_ascii_stl("solid endsolid").unwrap().triangles.len(), 0);
    assert_eq!(parse_ascii_stl("  solid\n\tendsolid whatever").unwrap().triangles.len(), 0);
    assert_eq!(parse_ascii_stl("solidendsolid").unwrap().triangles.len(), 0);
}

#[test]
fn ascii_named_solid() {
    let text = ONE_FACET.replace("solid\n", "solid my_part-v2\n");
    let text = text.replace("endsolid\n", "endsolid my_part-v2\n");
    assert_eq!(parse_ascii_stl(&text).unwrap().triangles.len(), 1);
    // the name is one word
    let text = ONE_FACET.replace("solid\n", "solid my part\n");
    assert_eq!(
        parse_ascii_stl(&text).unwrap_err(),
        TextError::Syntax { offset: 9, expected: Expected::EndSolid }
    );
    // a word that begins like a keyword is no name
    assert_eq!(
        parse_ascii_stl("solid facets endsolid").unwrap_err(),
        TextError::Syntax { offset: 11, expected: Expected::Blank }
    );
}

#[test]
fn ascii_scientific_notation() {
    let text = "solid s facet normal 0.0e0 -1E-2 +1.5e+1 outer loop vertex 1e3 2.5E-1 -3.25 vertex .5 5. 1e0 vertex 0 0 0 endloop endfacet endsolid";
    let mesh = parse_ascii_stl(text).unwrap();
    let t = &mesh.triangles[0];
    assert_eq!(t.vertices[0].normal.y, bits(-0.01));
    assert_eq!(t.vertices[0].normal.z, bits(15.0));
    assert_eq!(t.vertices[0].position.x, bits(1000.0));
    assert_eq!(t.vertices[0].position.y, bits(0.25));
    assert_eq!(t.vertices[0].position.z, bits(-3.25));
    assert_eq!(t.vertices[1].position.x, bits(0.5));
    assert_eq!(t.vertices[1].position.y, bits(5.0));
    assert_eq!(t.vertices[1].position.z, bits(1.0));
}

#[test]
fn ascii_keeps_declared_normal() {
    // the corners wind towards +z, the file says -z: the file is kept
    let text = ONE_FACET.replace("normal 0 0 1", "normal 0 0 -1");
    let mesh = parse_ascii_stl(&text).unwrap();
    assert_eq!(mesh.triangles[0].vertices[0].normal.z, bits(-1.0));
}

#[test]
fn ascii_syntax_errors() {
    assert_eq!(
        parse_ascii_stl("").unwrap_err(),
        TextError::Syntax { offset: 0, expected: Expected::Solid }
    );
    assert_eq!(
        parse_ascii_stl("  Solid endsolid").unwrap_err(),
        TextError::Syntax { offset: 2, expected: Expected::Solid }
    );
    assert_eq!(
        parse_ascii_stl("solid name").unwrap_err(),
        TextError::Syntax { offset: 10, expected: Expected::EndSolid }
    );
    assert_eq!(
        parse_ascii_stl("solid facet").unwrap_err(),
        TextError::Syntax { offset: 11, expected: Expected::Blank }
    );
    assert_eq!(
        parse_ascii_stl("solid facet  norm").unwrap_err(),
        TextError::Syntax { offset: 13, expected: Expected::Normal }
    );
    assert_eq!(
        parse_ascii_stl("solid facet normal 0 0 x").unwrap_err(),
        TextError::Syntax { offset: 23, expected: Expected::Number }
    );
    assert_eq!(
        parse_ascii_stl("solid facet normal 0 0").unwrap_err(),
        TextError::Syntax { offset: 22, expected: Expected::Blank }
    );
    assert_eq!(
        parse_ascii_stl("solid facet normal 0 0 1 inner").unwrap_err(),
        TextError::Syntax { offset: 25, expected: Expected::Outer }
    );
    assert_eq!(
        parse_ascii_stl("solid facet normal 0 0 1 outer loop vertex 0 0 0 vertex 0 0 0 endloop")
            .unwrap_err(),
        TextError::Syntax { offset: 62, expected: Expected::Vertex }
    );
    let two_corners = ONE_FACET.replace("   vertex 0 1 0\n", "");
    assert!(matches!(
        parse_ascii_stl(&two_corners).unwrap_err(),
        TextError::Syntax { expected: Expected::Vertex, .. }
    ));
    let no_end = ONE_FACET.replace("endsolid", "");
    assert!(matches!(
        parse_ascii_stl(&no_end).unwrap_err(),
        TextError::Syntax { expected: Expected::EndSolid, .. }
    ));
}

#[test]
fn ascii_malformed_facet_spoils_the_whole() {
    let text = format!(
        "{}{}",
        ONE_FACET.replace("endsolid\n", ""),
        " facet normal 0 0 1 outer loop vertex 0 0 0 vertex 1 0 oops endloop endfacet endsolid"
    );
    assert!(matches!(
        parse_ascii_stl(&text).unwrap_err(),
        TextError::Syntax { expected: Expected::Number, .. }
    ));
}

#[test]
fn ascii_non_finite_corner_is_rejected() {
    let text = ONE_FACET.replace("vertex 1 0 0", "vertex inf 0 0");
    assert_eq!(parse_ascii_stl(&text).unwrap_err(), TextError::NonFinite { triangle: 0 });
    let text = ONE_FACET.replace("vertex 0 1 0", "vertex 0 NaN 0");
    assert_eq!(parse_ascii_stl(&text).unwrap_err(), TextError::NonFinite { triangle: 0 });
    let text = ONE_FACET.replace("vertex 0 1 0", "vertex 0 1e60 0");
    assert_eq!(parse_ascii_stl(&text).unwrap_err(), TextError::NonFinite { triangle: 0 });
}

#[test]
fn ascii_and_binary_agree() {
    let values: [f32; 12] =
        [0.0, -0.6, 0.8, 1.5, -2.25, 3.0e-3, 4.0e5, 0.1, -0.2, 7.0, 8.125, -9.0];
    let binary = parse_binary_stl(&binary_file(&[values])).unwrap();
    let text = format!(
        "solid t\nfacet normal {:e} {:e} {:e}\nouter loop\nvertex {:e} {:e} {:e}\nvertex {:e} {:e} {:e}\nvertex {:e} {:e} {:e}\nendloop\nendfacet\nendsolid t\n",
        values[0], values[1], values[2], values[3], values[4], values[5], values[6], values[7],
        values[8], values[9], values[10], values[11]
    );
    let ascii = parse_ascii_stl(&text).unwrap();
    assert_eq!(ascii.triangles.len(), 1);
    assert_eq!(binary.triangles.len(), 1);
    for k in 0..3 {
        let a = ascii.triangles[0].vertices[k];
        let b = binary.triangles[0].vertices[k];
        assert_eq!(a, b);
        let close = |p: Scalar, q: Scalar| {
            (f32::from_bits(p.to_bits()) - f32::from_bits(q.to_bits())).abs() < 1e-6
        };
        assert!(close(a.position.x, b.position.x));
        assert!(close(a.position.y, b.position.y));
        assert!(close(a.position.z, b.position.z));
        assert!(close(a.normal.x, b.normal.x));
        assert!(close(a.normal.y, b.normal.y));
        assert!(close(a.normal.z, b.normal.z));
    }
}

#[test]
fn detection_prefers_text_that_parses() {
    let mesh = parse_stl(ONE_FACET.as_bytes()).unwrap();
    assert_eq!(mesh.triangles.len(), 1);
}

#[test]
fn detection_falls_back_to_binary() {
    // a binary file whose header happens to begin with "solid"
    let mut data = binary_file(&[[0.0, 0.0, 1.0, 0.0, 0.0, 0.0, 1.0, 0.0, 0.0, 0.0, 1.0, 0.0]]);
    data[..11].copy_from_slice(b"solid thing");
    let mesh = parse_stl(&data).unwrap();
    assert_eq!(mesh.triangles.len(), 1);
    // and one that does not
    let data = binary_file(&[[0.0, 0.0, 1.0, 0.0, 0.0, 0.0, 1.0, 0.0, 0.0, 0.0, 1.0, 0.0]]);
    assert_eq!(parse_stl(&data).unwrap().triangles.len(), 1);
}

#[test]
fn detection_reports_both_causes() {
    assert_eq!(
        parse_stl(b"solid broken").unwrap_err(),
        DecodeError::Unrecognized {
            text: TextError::Syntax { offset: 12, expected: Expected::EndSolid },
            binary: BinaryError::TooSmall { length: 12 },
        }
    );
    assert_eq!(
        parse_stl(b"solid \xff\xfe endsolid").unwrap_err(),
        DecodeError::Unrecognized {
            text: TextError::NotUtf8,
            binary: BinaryError::TooSmall { length: 17 },
        }
    );
    assert_eq!(
        parse_stl(b"not an stl").unwrap_err(),
        DecodeError::Binary(BinaryError::TooSmall { length: 10 })
    );
    let mut data = vec![0u8; 84];
    data[80] = 3;
    assert_eq!(
        parse_stl(&data).unwrap_err(),
        DecodeError::Binary(BinaryError::Truncated { declared: 3, length: 84 })
    );
}

#[test]
fn errors_say_what_went_wrong() {
    assert_eq!(
        BinaryError::TooSmall { length: 10 }.message(),
        "file too small: 10 bytes, and the header alone takes 84"
    );
    assert_eq!(
        BinaryError::Truncated { declared: 3, length: 100 }.message(),
        "unexpected end of file: 3 triangles declared, which take 234 bytes, and 100 bytes found"
    );
    assert_eq!(
        BinaryError::Truncated { declared: u32::MAX, length: 84 }.message(),
        "unexpected end of file: 4294967295 triangles declared, which take 214748364834 bytes, and 84 bytes found"
    );
    assert_eq!(
        BinaryError::NonFinite { triangle: 0 }.message(),
        "a corner of triangle 0 is not finite"
    );
    assert_eq!(TextError::NotUtf8.message(), "the text is not UTF-8");
    assert_eq!(
        TextError::Syntax { offset: 1205, expected: Expected::EndLoop }.message(),
        "expected `endloop` at byte 1205"
    );
    assert_eq!(
        TextError::Syntax { offset: 7, expected: Expected::Number }.message(),
        "expected a number at byte 7"
    );
    assert_eq!(
        TextError::Syntax { offset: 0, expected: Expected::Blank }.message(),
        "expected a blank at byte 0"
    );
    assert_eq!(TextError::NonFinite { triangle: 12 }.message(), "a corner of facet 12 is not finite");
    assert_eq!(
        parse_stl(b"solid broken").unwrap_err().message(),
        "neither text STL (expected `endsolid` at byte 12) nor binary STL (file too small: 12 bytes, and the header alone takes 84)"
    );
    assert_eq!(
        parse_stl(b"xyz").unwrap_err().message(),
        "file too small: 3 bytes, and the header alone takes 84"
    );
    let words = [
        (Expected::Solid, "`solid`"),
        (Expected::Facet, "`facet`"),
        (Expected::Normal, "`normal`"),
        (Expected::Outer, "`outer`"),
        (Expected::Loop, "`loop`"),
        (Expected::Vertex, "`vertex`"),
        (Expected::EndFacet, "`endfacet`"),
        (Expected::EndSolid, "`endsolid`"),
    ];
    for (expected, word) in words {
        assert_eq!(
            TextError::Syntax { offset: 90, expected }.message(),
            format!("expected {word} at byte 90")
        );
    }
}

#[test]
fn every_keyword_is_asked_for() {
    let whole = "solid a facet normal 0 0 1 outer loop vertex 0 0 0 vertex 1 0 0 vertex 0 1 0 endloop endfacet endsolid";
    assert!(parse_ascii_stl(whole).is_ok());
    for (word, expected) in [
        ("solid", Expected::Solid),
        ("normal", Expected::Normal),
        ("outer", Expected::Outer),
        ("loop", Expected::Loop),
        ("endloop", Expected::EndLoop),
        ("endfacet", Expected::EndFacet),
    ] {
        let at = whole.find(word).unwrap();
        let broken = format!("{}X{}", &whole[..at], &whole[at + 1..]);
        assert_eq!(
            parse_ascii_stl(&broken).unwrap_err(),
            TextError::Syntax { offset: at, expected },
            "{word}"
        );
    }
    // a word that does not begin with `facet` where a facet may begin ends the list of facets
    let at = whole.find("facet").unwrap();
    let broken = format!("{}X{}", &whole[..at], &whole[at + 1..]);
    assert_eq!(
        parse_ascii_stl(&broken).unwrap_err(),
        TextError::Syntax { offset: at, expected: Expected::EndSolid }
    );
    // without a name the broken word is taken for the name
    let unnamed = broken.replace("solid a ", "solid ");
    assert_eq!(
        parse_ascii_stl(&unnamed).unwrap_err(),
        TextError::Syntax { offset: 12, expected: Expected::EndSolid }
    );
    let at = whole.find("vertex").unwrap();
    let broken = format!("{}X{}", &whole[..at], &whole[at + 1..]);
    assert_eq!(
        parse_ascii_stl(&broken).unwrap_err(),
        TextError::Syntax { offset: at, expected: Expected::Vertex }
    );
}

#[test]
fn text_given_as_bytes() {
    let mesh = tw3d::ascii::parse_text(ONE_FACET.as_bytes()).unwrap();
    assert_eq!(mesh.triangles.len(), 1);
    // a name may hold what is no ASCII
    let named = ONE_FACET.replace("solid\n", "solid w\u{fc}rfel\n");
    assert_eq!(parse_stl(named.as_bytes()).unwrap().triangles.len(), 1);
}

#[test]
fn number_reader_answer_is_checked() {
    // the reader left 3 of the 8 bytes that it was shown at place 2 of 10
    assert_eq!(take_number(10, 2, Some((3, 0x3f80_0000))), Ok((Scalar::from_bits(0x3f80_0000), 7)));
    // it read nothing
    assert_eq!(
        take_number(10, 2, None),
        Err(TextError::Syntax { offset: 2, expected: Expected::Number })
    );
    // it took no byte
    assert_eq!(
        take_number(10, 2, Some((8, 0))),
        Err(TextError::Syntax { offset: 2, expected: Expected::Number })
    );
    // it claims to have left more than it was shown
    assert_eq!(
        take_number(10, 2, Some((9, 0))),
        Err(TextError::Syntax { offset: 2, expected: Expected::Number })
    );
    assert_eq!(take_number(10, 2, Some((0, 7))), Ok((Scalar::from_bits(7), 10)));
}
