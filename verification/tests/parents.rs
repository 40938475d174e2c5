use satoshi_dice::client::parents::push_unique;
use satoshi_dice::client::parents::read_second_item;
use satoshi_dice::client::parents::SecondItem;

#[test]
fn key_of_a_taproot_output() {
    let mut script = vec![0x51, 0x20];
    script.extend(1..=32u8);
    assert_eq!(
        read_second_item(&script),
        SecondItem::Pushed((1..=32u8).collect())
    );
}

#[test]
fn key_of_an_output_below_the_dust_limit() {
    let mut script = vec![0x6a, 0x20];
    script.extend(std::iter::repeat(7u8).take(32));
    assert_eq!(read_second_item(&script), SecondItem::Pushed(vec![7; 32]));
}

#[test]
fn second_item_behind_a_push() {
    assert_eq!(
        read_second_item(&[0x02, 0xaa, 0xbb, 0x01, 0xcc, 0x51]),
        SecondItem::Pushed(vec![0xcc])
    );
    assert_eq!(
        read_second_item(&[0x00, 0x14, 1, 2, 3, 4, 5, 6, 7, 8, 9, 10, 11, 12, 13, 14, 15, 16, 17, 18, 19, 20]),
        SecondItem::Pushed((1..=20u8).collect())
    );
    assert_eq!(read_second_item(&[0x51, 0x00]), SecondItem::Pushed(vec![]));
}

#[test]
fn pushes_with_a_counted_length() {
    assert_eq!(
        read_second_item(&[0x51, 0x4c, 0x02, 0xaa, 0xbb]),
        SecondItem::Pushed(vec![0xaa, 0xbb])
    );
    assert_eq!(
        read_second_item(&[0x51, 0x4d, 0x01, 0x00, 0xaa]),
        SecondItem::Pushed(vec![0xaa])
    );
    assert_eq!(
        read_second_item(&[0x51, 0x4e, 0x01, 0x00, 0x00, 0x00, 0xaa]),
        SecondItem::Pushed(vec![0xaa])
    );
    assert_eq!(
        read_second_item(&[0x4c, 0x01, 0xff, 0x4c, 0x00]),
        SecondItem::Pushed(vec![])
    );
    let mut long = vec![0x51, 0x4d, 0x00, 0x01];
    long.extend(std::iter::repeat(9u8).take(256));
    assert_eq!(read_second_item(&long), SecondItem::Pushed(vec![9; 256]));
}

#[test]
fn second_item_that_is_an_opcode() {
    assert_eq!(read_second_item(&[0x51, 0x52]), SecondItem::Opcode);
    assert_eq!(read_second_item(&[0x01, 0xaa, 0xac]), SecondItem::Opcode);
    assert_eq!(read_second_item(&[0x6a, 0x4f]), SecondItem::Opcode);
}

#[test]
fn scripts_without_a_second_item() {
    assert_eq!(read_second_item(&[]), SecondItem::Missing);
    assert_eq!(read_second_item(&[0x51]), SecondItem::Missing);
    assert_eq!(read_second_item(&[0x02, 0xaa, 0xbb]), SecondItem::Missing);
    assert_eq!(read_second_item(&[0x05, 0xaa]), SecondItem::Missing);
    assert_eq!(read_second_item(&[0x51, 0x20, 0x01]), SecondItem::Missing);
    assert_eq!(read_second_item(&[0x51, 0x4c]), SecondItem::Missing);
    assert_eq!(read_second_item(&[0x51, 0x4c, 0x02, 0xaa]), SecondItem::Missing);
    assert_eq!(read_second_item(&[0x51, 0x4d, 0x01]), SecondItem::Missing);
    assert_eq!(
        read_second_item(&[0x51, 0x4e, 0xff, 0xff, 0xff, 0xff, 0x00]),
        SecondItem::Missing
    );
}

#[test]
fn senders_are_listed_once() {
    let mut senders: Vec<String> = Vec::new();
    push_unique(&mut senders, "a".to_string());
    push_unique(&mut senders, "b".to_string());
    push_unique(&mut senders, "a".to_string());
    push_unique(&mut senders, "c".to_string());
    push_unique(&mut senders, "b".to_string());
    assert_eq!(senders, vec!["a", "b", "c"]);
}
