use mimir::{Data, DataBuffer};

#[test]
fn variable() {
    // Two cells backing a 2-element character variable: the first bound to
    // "jozias", the second left at its fetch-buffer default.
    let mut cells: Vec<Data> = vec![
        Data::new(false, DataBuffer::Bytes(Vec::new())),
        Data::new(false, DataBuffer::Bytes(Vec::new())),
    ];
    cells[0].set_string("jozias").unwrap();
    assert_eq!(cells.len(), 2);
    for (idx, data) in cells.iter().enumerate() {
        match idx {
            0 => assert_eq!(data.get_string(), "jozias"),
            1 => assert_eq!(data.get_string(), ""),
            _ => assert!(false),
        }
    }
}

#[test]
fn lob() {
    // A large-object cell carries its handle through untouched; the handle
    // value is owned by the external connection layer.
    let mut d = Data::new(false, DataBuffer::Lob(0));
    assert_eq!(d.get_lob(), 0);
    d.set_lob(0x4c4f_4221);
    assert_eq!(d.get_lob(), 0x4c4f_4221);
    match d.inner() {
        DataBuffer::Lob(h) => assert_eq!(*h, 0x4c4f_4221),
        _ => assert!(false),
    }
}
