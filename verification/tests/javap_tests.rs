use jvm::javap::instruction::{Dreturn, Dstore_1, Instruction};

#[test]
fn dreturn_decodes_one_byte() {
    let codes = [0x18u8, 0xaf, 0x00];
    let (info, next) = Dreturn.run(&codes, 1);
    assert_eq!(info.name, "dreturn");
    assert_eq!(info.code, 0xaf);
    assert_eq!(info.icp, 0);
    assert_eq!(next, 2);
}

#[test]
fn dstore_1_decodes_one_byte() {
    let codes = [0x48u8];
    let (info, next) = Dstore_1.run(&codes, 0);
    assert_eq!(info.name, "dstore_1");
    assert_eq!(info.code, 0x48);
    assert_eq!(info.icp, 0);
    assert_eq!(next, 1);
}
