//! The device-tree blob parser.

use rosin::fdt::blob::Blob;
use rosin::fdt::blob::Token;
use rosin::fdt::variable_int;
use rosin::fdt::Be32;
use rosin::fdt::Be64;
use rosin::fdt::RangeIter;
use rosin::fdt::RegIter;
use rosin::fdt::StrIter;
use rosin::Error;

/// Builds a small blob: a 40-byte header, a token stream, a strings
/// block.
struct Builder {
    structure: Vec<u8>,
    strings: Vec<u8>,
}

impl Builder {
    fn new() -> Self {
        Builder { structure: Vec::new(), strings: Vec::new() }
    }

    fn word(&mut self, value: u32) {
        self.structure.extend(value.to_be_bytes());
    }

    fn pad(&mut self) {
        while self.structure.len() % 4 != 0 {
            self.structure.push(0);
        }
    }

    fn begin(&mut self, name: &[u8]) {
        self.word(1);
        self.structure.extend(name);
        self.structure.push(0);
        self.pad();
    }

    fn prop(&mut self, name: &[u8], value: &[u8]) {
        let nameoff = self.strings.len() as u32;
        self.strings.extend(name);
        self.strings.push(0);
        self.word(3);
        self.word(value.len() as u32);
        self.word(nameoff);
        self.structure.extend(value);
        self.pad();
    }

    fn end(&mut self) {
        self.word(2);
    }

    fn finish(mut self) -> Vec<u8> {
        self.word(9);
        let off_struct = 40u32;
        let off_strings = 40 + self.structure.len() as u32;
        let total = off_strings + self.strings.len() as u32;
        let mut blob = Vec::new();
        blob.extend(0xD00D_FEEDu32.to_be_bytes());
        blob.extend(total.to_be_bytes());
        blob.extend(off_struct.to_be_bytes());
        blob.extend(off_strings.to_be_bytes());
        blob.extend(0u32.to_be_bytes());
        blob.extend(17u32.to_be_bytes());
        blob.extend(16u32.to_be_bytes());
        blob.extend(0u32.to_be_bytes());
        blob.extend((self.strings.len() as u32).to_be_bytes());
        blob.extend((self.structure.len() as u32).to_be_bytes());
        blob.extend(&self.structure);
        blob.extend(&self.strings);
        blob
    }
}

fn sample() -> Vec<u8> {
    let mut b = Builder::new();
    b.begin(b"");
    b.prop(b"#address-cells", &1u32.to_be_bytes());
    b.prop(b"#size-cells", &2u32.to_be_bytes());
    b.prop(b"model", b"sample-board\0");
    b.begin(b"memory");
    b.prop(b"reg", &[0, 0, 0, 0, 0, 0, 0, 0, 0x10, 0, 0, 0]);
    b.end();
    b.begin(b"soc");
    b.prop(b"#address-cells", &3u32.to_be_bytes());
    b.prop(b"phandle", &7u32.to_be_bytes());
    b.prop(b"compatible", b"brand,soc\0brand,generic\0");
    b.end();
    b.end();
    b.finish()
}

#[test]
fn magic_is_checked() {
    let bytes = sample();
    let blob = Blob::new(&bytes);
    let header = blob.header().expect("well-formed header");
    assert_eq!(header.magic, 0xD00D_FEED);
    assert_eq!(header.total_size as usize, bytes.len());
    assert_eq!(header.off_dt_struct, 40);
    assert_eq!(header.version, 17);
    assert_eq!(header.len(), bytes.len());

    let mut broken = bytes.clone();
    broken[0] = 0xDE;
    assert_eq!(Blob::new(&broken).header(), Err(Error::BadMagic));
    assert_eq!(Blob::new(&bytes[..20]).header(), Err(Error::Truncated));
}

#[test]
fn token_stream_is_balanced() {
    let bytes = sample();
    let blob = Blob::new(&bytes);
    let tokens = blob.iter().expect("well-formed stream");
    // The nesting depth returns to zero exactly once, at the end.
    let mut depth: i64 = 0;
    for (i, token) in tokens.iter().enumerate() {
        match token {
            Token::Begin { .. } => depth += 1,
            Token::End => depth -= 1,
            Token::Prop(_) => (),
        }
        if i + 1 < tokens.len() {
            assert!(depth >= 1);
        }
    }
    assert_eq!(depth, 0);
}

#[test]
fn tokens_resolve_names() {
    let bytes = sample();
    let blob = Blob::new(&bytes);
    let tokens = blob.iter().expect("well-formed stream");
    match &tokens[0] {
        Token::Begin { name } => assert_eq!(*name, b""),
        _ => panic!("expected the root to begin"),
    }
    match &tokens[1] {
        Token::Prop(p) => {
            assert_eq!(p.name, b"#address-cells");
            assert_eq!(p.value, &1u32.to_be_bytes());
        },
        _ => panic!("expected a property"),
    }
}

#[test]
fn unknown_token_is_fatal() {
    let mut b = Builder::new();
    b.begin(b"");
    b.end();
    let mut bytes = b.finish();
    // Overwrite the root's end token with an undefined kind.
    let off = 40 + 8;
    bytes[off..off + 4].copy_from_slice(&6u32.to_be_bytes());
    let blob = Blob::new(&bytes);
    assert!(matches!(blob.iter(), Err(Error::UnknownToken)));
}

#[test]
fn cells_are_inherited() {
    let bytes = sample();
    let blob = Blob::new(&bytes);
    let root = blob.root().expect("root node");
    // The root's own properties override the defaults.
    assert_eq!(root.node().address_cells(), 1);
    assert_eq!(root.node().size_cells(), 2);

    // A child without its own property inherits; one with its own
    // property overrides.
    let memory = root.memory().expect("memory node");
    assert_eq!(memory.name(), b"memory");
    assert_eq!(memory.address_cells(), 1);
    assert_eq!(memory.size_cells(), 2);

    let soc = root.find_child(b"soc").expect("soc node");
    assert_eq!(soc.address_cells(), 3);
    assert_eq!(soc.size_cells(), 2);
    assert_eq!(soc.phandle(), 7);
    assert_eq!(memory.phandle(), u32::MAX);
}

#[test]
fn default_cells_apply_at_the_root() {
    let mut b = Builder::new();
    b.begin(b"");
    b.end();
    let bytes = b.finish();
    let blob = Blob::new(&bytes);
    let root = blob.root().expect("root node");
    assert_eq!(root.node().address_cells(), 2);
    assert_eq!(root.node().size_cells(), 1);
}

#[test]
fn props_walk_in_order() {
    let bytes = sample();
    let blob = Blob::new(&bytes);
    let root = blob.root().expect("root node");
    let mut props = root.node().props();
    assert_eq!(props.next().unwrap().name, b"#address-cells");
    assert_eq!(props.next().unwrap().name, b"#size-cells");
    let model = props.next().unwrap();
    assert_eq!(model.name, b"model");
    assert_eq!(model.value, b"sample-board\0");
    assert!(props.next().is_none());
}

#[test]
fn compatible_splits_into_strings() {
    let bytes = sample();
    let blob = Blob::new(&bytes);
    let root = blob.root().expect("root node");
    let soc = root.find_child(b"soc").expect("soc node");
    let list = soc.compatible();
    let entries = list.iter().expect("valid strings");
    assert_eq!(entries.len(), 2);
    assert_eq!(entries[0], b"brand,soc");
    assert_eq!(entries[1], b"brand,generic");
}

#[test]
fn reg_entries_decode() {
    // One entry with eight address bytes and four size bytes.
    let raw = [0x00, 0x00, 0x00, 0x00, 0x3F, 0x00, 0x00, 0x00, 0x00, 0x00, 0x10, 0x00];
    let regs = RegIter::new(8, 4, &raw).iter();
    assert_eq!(regs.len(), 1);
    assert_eq!(regs[0].address, 0x3F00_0000);
    assert_eq!(regs[0].len, 0x1000);
}

#[test]
fn range_entries_decode() {
    let mut raw = Vec::new();
    raw.extend(0x7E00_0000u32.to_be_bytes());
    raw.extend(0x3F00_0000u32.to_be_bytes());
    raw.extend(0x0100_0000u32.to_be_bytes());
    let ranges = RangeIter::new(4, 4, &raw).iter();
    assert_eq!(ranges.len(), 1);
    assert_eq!(ranges[0].child, 0x7E00_0000);
    assert_eq!(ranges[0].parent, 0x3F00_0000);
    assert_eq!(ranges[0].len, 0x0100_0000);
}

#[test]
fn variable_width_integers() {
    assert_eq!(variable_int(0, &[]), 0);
    assert_eq!(variable_int(4, &[0, 0, 0, 9]), 9);
    assert_eq!(variable_int(8, &[0, 0, 0, 1, 0, 0, 0, 2]), 0x1_0000_0002);
}

#[test]
fn stored_big_endian_wrappers() {
    assert_eq!(Be32::new([0xD0, 0x0D, 0xFE, 0xED]).value(), 0xD00D_FEED);
    assert_eq!(Be64::new([0, 0, 0, 1, 0, 0, 0, 0]).value(), 0x1_0000_0000);
}

#[test]
fn strings_skip_empty_runs() {
    let list = StrIter::new(b"\0one\0\0two\0");
    let entries = list.iter().expect("valid strings");
    assert_eq!(entries.len(), 2);
    assert_eq!(entries[0], b"one");
    assert_eq!(entries[1], b"two");
}

#[test]
fn bad_strings_are_fatal() {
    let mut b = Builder::new();
    b.begin(b"node");
    b.end();
    let mut bytes = b.finish();
    // A name byte outside ASCII breaks the parse.
    bytes[44] = 0xC3;
    assert!(matches!(Blob::new(&bytes).iter(), Err(Error::BadString)));
}

#[test]
fn find_prop_misses_cleanly() {
    let bytes = sample();
    let blob = Blob::new(&bytes);
    let root = blob.root().expect("root node");
    assert!(root.find_child(b"serial").is_none());
    let mut props = root.memory().expect("memory node").props();
    let reg = props.next().unwrap();
    assert_eq!(reg.name, b"reg");
    assert!(props.next().is_none());
}

#[test]
fn invalid_string_entries_are_fatal() {
    // The second entry is not valid UTF-8.
    let list = StrIter::new(b"ok\0\xFF\xFF\0");
    assert!(matches!(list.iter(), Err(Error::BadString)));
}

#[test]
fn multibyte_names_decode() {
    let mut b = Builder::new();
    b.begin("caf\u{e9}".as_bytes());
    b.prop("caf\u{e9}".as_bytes(), b"1");
    b.end();
    let bytes = b.finish();
    let blob = Blob::new(&bytes);
    let tokens = blob.iter().expect("multibyte names are valid UTF-8");
    match &tokens[0] {
        Token::Begin { name } => assert_eq!(*name, "caf\u{e9}".as_bytes()),
        _ => panic!("expected the node to begin"),
    }
}

#[test]
fn reg_uses_parent_cells() {
    let bytes = sample();
    let blob = Blob::new(&bytes);
    let root = blob.root().expect("root node");
    // The root declares one address cell and two size cells, so the
    // memory node's single entry is a 4-byte address and 8-byte length.
    let memory = root.memory().expect("memory node");
    let regs = memory.reg().expect("widths fit").expect("reg present");
    let entries = regs.iter();
    assert_eq!(entries.len(), 1);
    assert_eq!(entries[0].address, 0);
    assert_eq!(entries[0].len, 0x1000_0000);

    let soc = root.find_child(b"soc").expect("soc node");
    assert!(soc.reg().expect("widths fit").is_none());
    assert!(soc.ranges().expect("widths fit").is_none());
}
