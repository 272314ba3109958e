use nom::bytes::complete::tag;
use nom::character::complete::{multispace0, multispace1};
use nom::multi::many0;
use nom::number::complete::float;
use nom::sequence::preceded;
use nom::IResult;
use tw3d::utf8::is_utf8;
use tw3d::{parse_ascii_stl, TextError};

type Facet = [[f32; 3]; 4];

fn triple(input: &str) -> IResult<&str, [f32; 3]> {
    let (input, _) = multispace0(input)?;
    let (input, x) = float(input)?;
    let (input, _) = multispace1(input)?;
    let (input, y) = float(input)?;
    let (input, _) = multispace1(input)?;
    let (input, z) = float(input)?;
    Ok((input, [x, y, z]))
}

fn corner(input: &str) -> IResult<&str, [f32; 3]> {
    let (input, _) = preceded(multispace0, tag("vertex"))(input)?;
    triple(input)
}

fn facet(input: &str) -> IResult<&str, Facet> {
    let (input, _) = preceded(multispace0, tag("facet"))(input)?;
    let (input, _) = preceded(multispace1, tag("normal"))(input)?;
    let (input, normal) = triple(input)?;
    let (input, _) = preceded(multispace0, tag("outer"))(input)?;
    let (input, _) = preceded(multispace1, tag("loop"))(input)?;
    let (input, a) = corner(input)?;
    let (input, b) = corner(input)?;
    let (input, c) = corner(input)?;
    let (input, _) = preceded(multispace0, tag("endloop"))(input)?;
    let (input, _) = preceded(multispace0, tag("endfacet"))(input)?;
    Ok((input, [normal, a, b, c]))
}

/// The grammar of a solid without a name, written with combinators.
fn unnamed_solid(input: &str) -> Option<Vec<Facet>> {
    let (input, _) = preceded(multispace0, tag::<_, _, nom::error::Error<&str>>("solid"))(input).ok()?;
    let (input, facets) = many0(facet)(input).ok()?;
    preceded(multispace0, tag::<_, _, nom::error::Error<&str>>("endsolid"))(input).ok()?;
    Some(facets)
}

fn decoded(input: &str) -> Result<Vec<Facet>, TextError> {
    parse_ascii_stl(input).map(|mesh| {
        mesh.triangles
            .iter()
            .map(|t| {
                let n = t.vertices[0].normal;
                let p = |k: usize| {
                    let p = t.vertices[k].position;
                    [p.x, p.y, p.z].map(|v| f32::from_bits(v.to_bits()))
                };
                [[n.x, n.y, n.z].map(|v| f32::from_bits(v.to_bits())), p(0), p(1), p(2)]
            })
            .collect()
    })
}

fn same(a: &[Facet], b: &[Facet]) -> bool {
    a.len() == b.len()
        && a.iter().zip(b).all(|(x, y)| {
            x.iter().flatten().zip(y.iter().flatten()).all(|(p, q)| p.to_bits() == q.to_bits())
        })
}

struct Dice(u64);

impl Dice {
    fn roll(&mut self, sides: usize) -> usize {
        self.0 = self.0.wrapping_mul(6364136223846793005).wrapping_add(1442695040888963407);
        ((self.0 >> 33) as usize) % sides
    }
}

const SAMPLE: &str = "solid\nfacet normal 0 0 1\n outer loop\n  vertex 0 0 0\n  vertex 1.5 0 0\n  vertex 0 1e1 0\n endloop\nendfacet\nfacet normal 0 -1 0 outer loop vertex -1 -1 -1 vertex +1 -1 -1 vertex 1 -1 .5 endloop endfacet\n endsolid\n";

/// Without a name, a text is taken exactly where the combinator grammar takes
/// it, and for the same numbers; a corner that is not finite is the one thing
/// that is refused on top.
#[test]
fn agrees_with_the_combinator_grammar() {
    let pieces = [
        " ", "\n", "\t", "0", "1", "-", "+", ".", "e", "E", "x", "9", "facet", "normal", "outer",
        "loop", "vertex", "endloop", "endfacet", "endsolid", "solid", "nan", "inf", "1e", "\r",
    ];
    let mut dice = Dice(7);
    let mut taken = 0;
    let mut refused = 0;
    for round in 0..6000 {
        let mut text = String::from(SAMPLE);
        for _ in 0..(1 + round % 3) {
            let at = dice.roll(text.len() + 1);
            match dice.roll(3) {
                0 => text.insert_str(at, pieces[dice.roll(pieces.len())]),
                1 if at < text.len() => {
                    text.remove(at);
                }
                _ => {
                    let end = (at + 1 + dice.roll(6)).min(text.len());
                    text.replace_range(at..end, pieces[dice.roll(pieces.len())]);
                }
            }
        }
        let after = text.trim_start().strip_prefix("solid").map(|rest| rest.trim_start());
        let named = match after {
            Some(rest) => !(rest.starts_with("facet") || rest.starts_with("endsolid")),
            None => false,
        };
        if named {
            continue;
        }
        let expected = unnamed_solid(&text);
        match (decoded(&text), expected) {
            (Ok(mine), Some(theirs)) => {
                assert!(same(&mine, &theirs), "{text:?}");
                taken += 1;
            }
            (Err(TextError::NonFinite { triangle }), Some(theirs)) => {
                assert!(theirs[triangle][1..].iter().flatten().any(|v| !v.is_finite()), "{text:?}");
                assert!(
                    theirs[..triangle].iter().all(|f| f[1..].iter().flatten().all(|v| v.is_finite())),
                    "{text:?}"
                );
            }
            (Err(TextError::Syntax { .. }), None) => refused += 1,
            (mine, theirs) => panic!("{text:?}: {mine:?} against {theirs:?}"),
        }
    }
    assert!(taken > 100, "{taken}");
    assert!(refused > 100, "{refused}");
}

#[test]
fn utf8_is_told_as_the_standard_library_tells_it() {
    let cases: [&[u8]; 28] = [
        b"",
        b"plain",
        "w\u{fc}rfel".as_bytes(),
        "\u{7f}\u{80}\u{7ff}\u{800}\u{ffff}\u{10000}\u{10ffff}".as_bytes(),
        "\u{d7ff}\u{e000}".as_bytes(),
        b"\x80",
        b"\xbf",
        b"\xc0\x80",
        b"\xc1\xbf",
        b"\xc2",
        b"\xc2\x41",
        b"\xc2\x80",
        b"\xdf\xbf",
        b"\xe0\x80\x80",
        b"\xe0\x9f\xbf",
        b"\xe0\xa0\x80",
        b"\xe0\xa0",
        b"\xed\x9f\xbf",
        b"\xed\xa0\x80",
        b"\xed\xbf\xbf",
        b"\xee\x80\x80",
        b"\xf0\x8f\xbf\xbf",
        b"\xf0\x90\x80\x80",
        b"\xf4\x8f\xbf\xbf",
        b"\xf4\x90\x80\x80",
        b"\xf5\x80\x80\x80",
        b"\xf8\x88\x80\x80\x80",
        b"ok\xffok",
    ];
    for case in cases {
        assert_eq!(is_utf8(case), std::str::from_utf8(case).is_ok(), "{case:?}");
    }
    let mut dice = Dice(99);
    let bytes = [0x00u8, 0x41, 0x7f, 0x80, 0x9f, 0xa0, 0xbf, 0xc0, 0xc2, 0xdf, 0xe0, 0xed, 0xef, 0xf0, 0xf4, 0xf5, 0xff];
    for _ in 0..20000 {
        let len = dice.roll(6);
        let case: Vec<u8> = (0..len).map(|_| bytes[dice.roll(bytes.len())]).collect();
        assert_eq!(is_utf8(&case), std::str::from_utf8(&case).is_ok(), "{case:?}");
    }
}
