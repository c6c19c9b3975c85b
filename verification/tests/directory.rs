use bsp_parser::error::LumpError;
use bsp_parser::le::FloatBits;
use bsp_parser::lumps::lump_parser::{decompress_lumps, parse_lump_data, LumpOutcome, ParsedLumps};
use bsp_parser::lumps::lump_types::{Brush, Edge, LightmapSample, Plane};
use bsp_parser::lumps::{Lump, LumpReader, LumpType};
use bsp_parser::{BspHeader, BspParser};

const NO_IDENT: [u8; 4] = [0, 0, 0, 0];

fn absent() -> Lump {
    Lump { fileofs: 0, filelen: 0, version: 0, ident: NO_IDENT }
}

/// A file under construction: the header, room for the directory, and the
/// lumps appended so far.
struct File {
    bytes: Vec<u8>,
    lumps: Vec<Lump>,
}

impl File {
    fn new() -> File {
        let mut bytes = Vec::new();
        bytes.extend_from_slice(b"VBSP");
        bytes.extend_from_slice(&20i32.to_le_bytes());
        bytes.resize(8 + 64 * 16, 0);
        File { bytes, lumps: vec![absent(); 64] }
    }

    fn put(&mut self, kind: LumpType, body: &[u8], ident: [u8; 4]) {
        let lump = Lump {
            fileofs: self.bytes.len() as i32,
            filelen: body.len() as i32,
            version: 0,
            ident,
        };
        self.bytes.extend_from_slice(body);
        self.set(kind.index(), lump);
    }

    fn set(&mut self, slot: usize, lump: Lump) {
        self.lumps[slot] = lump;
        let at = 8 + 16 * slot;
        self.bytes[at..at + 4].copy_from_slice(&lump.fileofs.to_le_bytes());
        self.bytes[at + 4..at + 8].copy_from_slice(&lump.filelen.to_le_bytes());
        self.bytes[at + 8..at + 12].copy_from_slice(&lump.version.to_le_bytes());
        self.bytes[at + 12..at + 16].copy_from_slice(&lump.ident);
    }

    fn decode(&self) -> Result<ParsedLumps, LumpError> {
        parse_lump_data(self.lumps.clone(), &self.bytes)
    }
}

/// The body of a compressed lump that decompresses to `plain`.
fn wrap(plain: &[u8]) -> Vec<u8> {
    let mut stream = Vec::new();
    lzma_rs::lzma_compress(&mut std::io::Cursor::new(plain), &mut stream).unwrap();
    let mut body = Vec::new();
    body.extend_from_slice(b"LZMA");
    body.extend_from_slice(&(plain.len() as u32).to_le_bytes());
    body.extend_from_slice(&((stream.len() - 13) as u32).to_le_bytes());
    body.extend_from_slice(&stream[..5]);
    body.extend_from_slice(&stream[13..]);
    body
}

fn plane_bytes(normal: [f32; 3], dist: f32, axis: i32) -> Vec<u8> {
    let mut out = Vec::new();
    for x in normal {
        out.extend_from_slice(&x.to_le_bytes());
    }
    out.extend_from_slice(&dist.to_le_bytes());
    out.extend_from_slice(&axis.to_le_bytes());
    out
}

fn float(x: f32) -> FloatBits {
    FloatBits { bits: x.to_bits() }
}

const SOME_TEXT: &str = "{\n\"classname\" \"light\"\n\"origin\" \"0 0 0\"\n}\n";

fn every_collection_is_empty(p: &ParsedLumps) -> bool {
    p.entities.is_empty()
        && p.planes.is_empty()
        && p.texdata.is_empty()
        && p.vertex_list.is_empty()
        && p.nodes.is_empty()
        && p.texinfo.is_empty()
        && p.faces.is_empty()
        && p.lightmap_samples.is_empty()
        && p.occluders.is_empty()
        && p.edges.is_empty()
        && p.surfedges.is_empty()
        && p.models.is_empty()
        && p.leaf_faces.is_empty()
        && p.leaf_brushes.is_empty()
        && p.brushes.is_empty()
        && p.brushsides.is_empty()
        && p.areas.is_empty()
        && p.area_portals.is_empty()
        && p.displacement_info.is_empty()
        && p.original_faces.is_empty()
}

#[test]
fn test_program() {
    // A small level in memory stands in for a file on disk.
    let mut file = File::new();
    file.put(LumpType::Entities, SOME_TEXT.as_bytes(), NO_IDENT);
    file.put(LumpType::Plane, &plane_bytes([0.0, 0.0, 1.0], 64.0, 2), NO_IDENT);
    file.put(LumpType::Edges, &wrap(&[1, 0, 2, 0, 2, 0, 3, 0]), *b"LZMA");
    let bsp_parser = BspParser { data: file.bytes.clone() };

    println!("{:?}", bsp_parser.fetch_header());
    println!("{:?}", bsp_parser.read_lump_info());

    let lumps = bsp_parser.read_lump_info().unwrap();

    println!("{:#?}", parse_lump_data(lumps, &bsp_parser.data));
}

#[test]
fn header_fields() {
    let file = File::new();
    let parser = BspParser { data: file.bytes };
    assert_eq!(
        parser.fetch_header(),
        Ok(BspHeader { ident: i32::from_le_bytes(*b"VBSP"), version: 20 })
    );
    let parser = BspParser { data: vec![1, 0, 0, 0, 0xff, 0xff, 0xff, 0xff] };
    assert_eq!(parser.fetch_header(), Ok(BspHeader { ident: 1, version: -1 }));
}

#[test]
fn header_of_a_short_file_is_out_of_range() {
    for len in 0..8 {
        let parser = BspParser { data: vec![0; len] };
        assert_eq!(parser.fetch_header(), Err(LumpError::OutOfRange));
    }
}

#[test]
fn directory_has_64_entries_in_file_order() {
    let mut file = File::new();
    for slot in 0..64usize {
        file.set(
            slot,
            Lump {
                fileofs: 2000 + slot as i32,
                filelen: -(slot as i32),
                version: slot as i32 * 3,
                ident: [slot as u8, 1, 2, 3],
            },
        );
    }
    let parser = BspParser { data: file.bytes.clone() };
    let lumps = parser.read_lump_info().unwrap();
    assert_eq!(lumps.len(), 64);
    assert_eq!(lumps, file.lumps);
    assert_eq!(lumps[63], Lump { fileofs: 2063, filelen: -63, version: 189, ident: [63, 1, 2, 3] });
}

#[test]
fn directory_of_a_short_file_is_out_of_range() {
    let file = File::new();
    assert_eq!(file.bytes.len(), 1032);
    let parser = BspParser { data: file.bytes[..1031].to_vec() };
    assert_eq!(parser.read_lump_info(), Err(LumpError::OutOfRange));
    let parser = BspParser { data: Vec::new() };
    assert_eq!(parser.read_lump_info(), Err(LumpError::OutOfRange));
    let parser = BspParser { data: file.bytes };
    assert_eq!(parser.read_lump_info().map(|l| l.len()), Ok(64));
}

#[test]
fn a_whole_file_is_decoded_through_its_directory() {
    let mut file = File::new();
    file.put(LumpType::Entities, SOME_TEXT.as_bytes(), NO_IDENT);
    file.put(LumpType::Plane, &plane_bytes([0.0, 0.0, 1.0], 64.0, 2), NO_IDENT);
    file.put(LumpType::Edges, &wrap(&[1, 0, 2, 0, 2, 0, 3, 0]), *b"LZMA");
    let parser = BspParser { data: file.bytes.clone() };
    let parsed = parser.parse().unwrap();
    assert_eq!(parsed.entities.len(), 1);
    assert_eq!(parsed.planes.len(), 1);
    assert_eq!(parsed.planes[0].axis_type, 2);
    assert_eq!(
        parsed.edges,
        vec![Edge { vertex_indicies: [1, 2] }, Edge { vertex_indicies: [2, 3] }]
    );
    assert_eq!(parsed.outcomes.len(), 64);
    assert_eq!(parsed.outcomes.iter().filter(|o| **o == LumpOutcome::Decoded).count(), 3);
    assert_eq!(parsed.outcomes.iter().filter(|o| **o == LumpOutcome::Absent).count(), 61);

    // A file that ends inside its directory, and one whose directory names
    // bytes behind its end.
    let parser = BspParser { data: file.bytes[..1000].to_vec() };
    assert_eq!(parser.parse().err(), Some(LumpError::OutOfRange));
    let parser = BspParser { data: file.bytes[..file.bytes.len() - 1].to_vec() };
    assert_eq!(parser.parse().err(), Some(LumpError::OutOfRange));
}

#[test]
fn lump_type_slots() {
    assert_eq!(LumpType::Entities.index(), 0);
    assert_eq!(LumpType::Plane.index(), 1);
    assert_eq!(LumpType::Occlusion.index(), 9);
    assert_eq!(LumpType::Dispinfo.index(), 26);
    assert_eq!(LumpType::GameLump.index(), 35);
    assert_eq!(LumpType::DispMultiblend.index(), 63);
    assert_eq!(LumpType::from_index(0), Some(LumpType::Entities));
    assert_eq!(LumpType::from_index(27), Some(LumpType::Originalfaces));
    assert_eq!(LumpType::from_index(63), Some(LumpType::DispMultiblend));
    assert_eq!(LumpType::from_index(64), None);
    assert_eq!(LumpType::from_index(usize::MAX), None);
    for slot in 0..64 {
        assert_eq!(LumpType::from_index(slot).map(|k| k.index()), Some(slot));
    }
}

#[test]
fn empty_directory_decodes_to_empty_collections() {
    let file = File::new();
    let parsed = file.decode().unwrap();
    assert!(every_collection_is_empty(&parsed));
    assert_eq!(parsed.outcomes, vec![LumpOutcome::Absent; 64]);
    let parsed = parse_lump_data(Vec::new(), &[]).unwrap();
    assert!(every_collection_is_empty(&parsed));
    assert!(parsed.outcomes.is_empty());
    let parsed = ParsedLumps::default();
    assert!(every_collection_is_empty(&parsed));
    assert!(parsed.outcomes.is_empty());
}

#[test]
fn offset_zero_is_passed_over_whatever_the_other_fields() {
    let mut file = File::new();
    file.bytes.extend_from_slice(&plane_bytes([1.0, 0.0, 0.0], 1.0, 0));
    // Lengths that would reach outside the file, and an ident that would ask
    // for decompression, on entries with offset 0.
    file.set(1, Lump { fileofs: 0, filelen: 20, version: 7, ident: *b"LZMA" });
    file.set(7, Lump { fileofs: 0, filelen: i32::MAX, version: -1, ident: [1, 0, 0, 0] });
    file.set(12, Lump { fileofs: 0, filelen: -40, version: 0, ident: NO_IDENT });
    let parsed = file.decode().unwrap();
    assert!(every_collection_is_empty(&parsed));
    assert_eq!(parsed.outcomes, vec![LumpOutcome::Absent; 64]);
}

#[test]
fn planes_and_edges_are_decoded_into_their_collections() {
    let mut file = File::new();
    let mut planes = plane_bytes([0.0, 0.0, 1.0], 64.0, 2);
    planes.extend_from_slice(&plane_bytes([0.0, -1.0, 0.0], -8.5, 1));
    file.put(LumpType::Plane, &planes, NO_IDENT);
    file.put(LumpType::Edges, &[1, 0, 2, 0, 2, 0, 3, 0], NO_IDENT);
    file.put(LumpType::Lighting, &[1, 2, 3, 0xff], NO_IDENT);
    file.put(LumpType::Brushes, &[1, 0, 0, 0, 6, 0, 0, 0, 1, 0, 0, 0x80], NO_IDENT);
    let parsed = file.decode().unwrap();
    assert_eq!(
        parsed.planes,
        vec![
            Plane {
                normal: (float(0.0), float(0.0), float(1.0)),
                dist_from_origin: float(64.0),
                axis_type: 2,
            },
            Plane {
                normal: (float(0.0), float(-1.0), float(0.0)),
                dist_from_origin: float(-8.5),
                axis_type: 1,
            },
        ]
    );
    assert_eq!(
        parsed.edges,
        vec![Edge { vertex_indicies: [1, 2] }, Edge { vertex_indicies: [2, 3] }]
    );
    assert_eq!(parsed.lightmap_samples, vec![LightmapSample { r: 1, g: 2, b: 3, exponent: -1 }]);
    assert_eq!(
        parsed.brushes,
        vec![Brush { first_side: 1, num_sides: 6, contents: i32::MIN + 1 }]
    );
    assert!(parsed.faces.is_empty() && parsed.entities.is_empty());
    for slot in 0..64 {
        let expected = match slot {
            1 | 8 | 12 | 18 => LumpOutcome::Decoded,
            _ => LumpOutcome::Absent,
        };
        assert_eq!(parsed.outcomes[slot], expected, "slot {}", slot);
    }
}

#[test]
fn faces_and_original_faces_are_kept_apart() {
    let mut file = File::new();
    let one: Vec<u8> = (0..56).collect();
    let two: Vec<u8> = (100..212).collect();
    file.put(LumpType::Originalfaces, &two, NO_IDENT);
    file.put(LumpType::Faces, &one, NO_IDENT);
    let parsed = file.decode().unwrap();
    assert_eq!(parsed.faces.len(), 1);
    assert_eq!(parsed.original_faces.len(), 2);
    assert_eq!(parsed.faces[0].plane_num, 0x0100);
    assert_eq!(parsed.original_faces[0].plane_num, u16::from_le_bytes([100, 101]));
    assert_eq!(parsed.original_faces[1].plane_num, u16::from_le_bytes([156, 157]));
}

#[test]
fn leaf_lists_and_surfedges() {
    let mut file = File::new();
    file.put(LumpType::Surfedges, &[0xff, 0xff, 0xff, 0xff, 5, 0, 0, 0], NO_IDENT);
    file.put(LumpType::Leaffaces, &[1, 0, 0xff, 0xff], NO_IDENT);
    file.put(LumpType::Leafbrushes, &[9, 0], NO_IDENT);
    let parsed = file.decode().unwrap();
    assert_eq!(parsed.surfedges, vec![-1, 5]);
    assert_eq!(parsed.leaf_faces, vec![1, 65535]);
    assert_eq!(parsed.leaf_brushes, vec![9]);
}

#[test]
fn first_slot_is_decoded_as_text() {
    let mut file = File::new();
    file.put(LumpType::Entities, SOME_TEXT.as_bytes(), NO_IDENT);
    let parsed = file.decode().unwrap();
    assert_eq!(parsed.entities.len(), 1);
    assert_eq!(parsed.entities[0].get("classname").map(|s| s.as_str()), Some("light"));
    assert_eq!(parsed.entities[0].get("origin").map(|s| s.as_str()), Some("0 0 0"));
    assert_eq!(parsed.outcomes[0], LumpOutcome::Decoded);
    assert!(parsed.planes.is_empty());

    // Bytes that would be one plane are text all the same in the first slot,
    // and text is no plane in the second.
    let mut file = File::new();
    file.put(LumpType::Entities, &plane_bytes([0.0, 0.0, 1.0], 64.0, 2), NO_IDENT);
    file.put(LumpType::Plane, SOME_TEXT.as_bytes(), NO_IDENT);
    let parsed = file.decode().unwrap();
    assert!(every_collection_is_empty(&parsed));
    assert_eq!(parsed.outcomes[0], LumpOutcome::Decoded);
    assert_eq!(parsed.outcomes[1], LumpOutcome::Failed(LumpError::OutOfRange));
}

#[test]
fn lump_with_a_partial_record_stays_empty_and_the_rest_is_decoded() {
    let mut file = File::new();
    let mut planes = plane_bytes([0.0, 0.0, 1.0], 64.0, 2);
    planes.extend_from_slice(&[1, 2, 3]);
    file.put(LumpType::Plane, &planes, NO_IDENT);
    file.put(LumpType::Edges, &[1, 0, 2, 0], NO_IDENT);
    let parsed = file.decode().unwrap();
    assert!(parsed.planes.is_empty());
    assert_eq!(parsed.outcomes[1], LumpOutcome::Failed(LumpError::OutOfRange));
    assert_eq!(parsed.edges, vec![Edge { vertex_indicies: [1, 2] }]);
    assert_eq!(parsed.outcomes[12], LumpOutcome::Decoded);
}

#[test]
fn kinds_without_a_decoder_are_skipped() {
    let mut file = File::new();
    file.put(LumpType::Visibility, &[1, 2, 3], NO_IDENT);
    file.put(LumpType::Physcollide, &[0; 40], NO_IDENT);
    file.put(LumpType::Pakfile, b"PK\x05\x06", NO_IDENT);
    file.put(LumpType::GameLump, &wrap(&[1, 2, 3, 4]), *b"LZMA");
    let parsed = file.decode().unwrap();
    assert!(every_collection_is_empty(&parsed));
    for slot in [4, 29, 40, 35] {
        assert_eq!(parsed.outcomes[slot], LumpOutcome::Skipped, "slot {}", slot);
    }
}

#[test]
fn lump_outside_the_file_fails_the_whole_decode() {
    let mut file = File::new();
    file.put(LumpType::Edges, &[1, 0, 2, 0], NO_IDENT);
    let end = file.bytes.len() as i32;
    assert!(file.decode().is_ok());

    let cases = [
        Lump { fileofs: end - 4, filelen: 5, version: 0, ident: NO_IDENT },
        Lump { fileofs: end + 1, filelen: 0, version: 0, ident: NO_IDENT },
        Lump { fileofs: -1, filelen: 4, version: 0, ident: NO_IDENT },
        Lump { fileofs: end - 4, filelen: -1, version: 0, ident: NO_IDENT },
        Lump { fileofs: i32::MAX, filelen: i32::MAX, version: 0, ident: NO_IDENT },
        Lump { fileofs: i32::MIN, filelen: i32::MIN, version: 0, ident: NO_IDENT },
        Lump { fileofs: 1, filelen: i32::MAX, version: 0, ident: *b"LZMA" },
    ];
    for lump in cases {
        for slot in [0usize, 12, 40, 63] {
            let mut bad = File { bytes: file.bytes.clone(), lumps: file.lumps.clone() };
            bad.set(slot, lump);
            assert_eq!(bad.decode().err(), Some(LumpError::OutOfRange), "{:?} in {}", lump, slot);
        }
    }
    // The last byte of the file and the empty region behind it are inside.
    let mut edge = File { bytes: file.bytes.clone(), lumps: file.lumps.clone() };
    edge.set(40, Lump { fileofs: end - 1, filelen: 1, version: 0, ident: NO_IDENT });
    edge.set(41, Lump { fileofs: end, filelen: 0, version: 0, ident: NO_IDENT });
    assert!(edge.decode().is_ok());
}

#[test]
fn directory_of_another_length() {
    let mut file = File::new();
    file.put(LumpType::Plane, &plane_bytes([0.0, 0.0, 1.0], 64.0, 2), NO_IDENT);
    file.put(LumpType::Edges, &[1, 0, 2, 0], NO_IDENT);
    // Only the first two entries: the edges are never looked at.
    let parsed = parse_lump_data(file.lumps[..2].to_vec(), &file.bytes).unwrap();
    assert_eq!(parsed.planes.len(), 1);
    assert!(parsed.edges.is_empty());
    assert_eq!(parsed.outcomes, vec![LumpOutcome::Absent, LumpOutcome::Decoded]);
    // Entries behind the 64th have no decoder.
    let mut lumps = file.lumps.clone();
    lumps.push(file.lumps[1]);
    let parsed = parse_lump_data(lumps, &file.bytes).unwrap();
    assert_eq!(parsed.planes.len(), 1);
    assert_eq!(parsed.outcomes.len(), 65);
    assert_eq!(parsed.outcomes[64], LumpOutcome::Skipped);
}

#[test]
fn compressed_lump_round_trips() {
    let plain: Vec<u8> = (0..4000u32).map(|i| (i * i % 251) as u8).collect();
    let body = wrap(&plain);
    assert_ne!(&body[17..], &plain[..]);
    let reader = decompress_lumps(LumpReader::new(&body)).ok().expect("a valid stream");
    assert_eq!(reader.get_pos(), 0);
    assert_eq!(reader.get_data(), &plain[..]);

    for plain in [&b""[..], &b"a"[..], &[0u8; 1000][..], SOME_TEXT.as_bytes()] {
        let reader = decompress_lumps(LumpReader::new(&wrap(plain))).ok().expect("a valid stream");
        assert_eq!(reader.get_data(), plain);
        assert_eq!(reader.get_len(), plain.len());
    }
}

#[test]
fn decompression_reads_what_the_cursor_has_left() {
    let plain = b"what is left";
    let mut bytes = vec![0xaa, 0xbb, 0xcc];
    bytes.extend_from_slice(&wrap(plain));
    let mut reader = LumpReader::new(&bytes);
    reader.skip_bytes(3).unwrap();
    let reader = decompress_lumps(reader).ok().expect("a valid stream");
    assert_eq!(reader.get_data(), &plain[..]);
}

#[test]
fn stored_compressed_size_and_magic_are_not_used() {
    let plain = b"the quick brown fox jumps over the lazy dog";
    let mut body = wrap(plain);
    body[..4].copy_from_slice(&[0, 0, 0, 0]);
    body[8..12].copy_from_slice(&[0xff, 0xff, 0xff, 0x7f]);
    let reader = decompress_lumps(LumpReader::new(&body)).ok().expect("a valid stream");
    assert_eq!(reader.get_data(), &plain[..]);
}

#[test]
fn corrupt_stream_is_a_decompression_failure() {
    let plain: Vec<u8> = (0..500u32).map(|i| (i % 7) as u8).collect();
    let good = wrap(&plain);

    // Properties that no LZMA stream has.
    let mut bad = good.clone();
    bad[12] = 225;
    assert_eq!(
        decompress_lumps(LumpReader::new(&bad)).err(),
        Some(LumpError::DecompressionFailure)
    );
    // A payload cut short.
    assert_eq!(
        decompress_lumps(LumpReader::new(&good[..good.len() / 2])).err(),
        Some(LumpError::DecompressionFailure)
    );
    assert_eq!(
        decompress_lumps(LumpReader::new(&good[..17])).err(),
        Some(LumpError::DecompressionFailure)
    );
    // A declared size that the payload does not reach.
    let mut bad = good.clone();
    bad[4..8].copy_from_slice(&100_000u32.to_le_bytes());
    assert_eq!(
        decompress_lumps(LumpReader::new(&bad)).err(),
        Some(LumpError::DecompressionFailure)
    );
}

#[test]
fn compressed_lump_shorter_than_its_header_is_out_of_range() {
    let good = wrap(b"abc");
    for len in 0..17 {
        assert_eq!(
            decompress_lumps(LumpReader::new(&good[..len])).err(),
            Some(LumpError::OutOfRange),
            "length {}",
            len
        );
    }
}

#[test]
fn compressed_lumps_in_the_directory() {
    let mut file = File::new();
    let mut planes = plane_bytes([0.0, 0.0, 1.0], 64.0, 2);
    planes.extend_from_slice(&plane_bytes([1.0, 0.0, 0.0], 0.0, 0));
    file.put(LumpType::Plane, &wrap(&planes), *b"LZMA");
    file.put(LumpType::Entities, &wrap(SOME_TEXT.as_bytes()), [0, 0, 0, 1]);
    file.put(LumpType::Edges, &[1, 0, 2, 0], NO_IDENT);
    let mut corrupt = wrap(&[1, 0, 2, 0, 3, 0]);
    corrupt[12] = 0xff;
    file.put(LumpType::Leaffaces, &corrupt, *b"LZMA");
    file.put(LumpType::Leafbrushes, &[1, 2, 3], [9, 9, 9, 9]);
    let parsed = file.decode().unwrap();
    assert_eq!(parsed.planes.len(), 2);
    assert_eq!(parsed.planes[1].normal, (float(1.0), float(0.0), float(0.0)));
    assert_eq!(parsed.entities.len(), 1);
    assert_eq!(parsed.entities[0].get("classname").map(|s| s.as_str()), Some("light"));
    assert_eq!(parsed.edges.len(), 1);
    assert!(parsed.leaf_faces.is_empty());
    assert!(parsed.leaf_brushes.is_empty());
    assert_eq!(parsed.outcomes[0], LumpOutcome::Decoded);
    assert_eq!(parsed.outcomes[1], LumpOutcome::Decoded);
    assert_eq!(parsed.outcomes[12], LumpOutcome::Decoded);
    assert_eq!(parsed.outcomes[16], LumpOutcome::Failed(LumpError::DecompressionFailure));
    assert_eq!(parsed.outcomes[17], LumpOutcome::Failed(LumpError::OutOfRange));
}

#[test]
fn uncompressed_bytes_under_a_compression_ident_do_not_decode() {
    let mut file = File::new();
    let plain = [0xffu8; 40];
    file.put(LumpType::Plane, &plain, *b"LZMA");
    let parsed = file.decode().unwrap();
    assert!(parsed.planes.is_empty());
    assert_eq!(parsed.outcomes[1], LumpOutcome::Failed(LumpError::DecompressionFailure));
    // The same bytes without the ident are two planes.
    let mut file = File::new();
    file.put(LumpType::Plane, &plain, NO_IDENT);
    let parsed = file.decode().unwrap();
    assert_eq!(parsed.planes.len(), 2);
    assert_eq!(parsed.planes[0].axis_type, -1);
}
