use merkle_pages::input::{
    input_file_names, page_file_name, read_input_data, Config, InputError,
};
use merkle_pages::merkle::verified_root;

fn config(prefix: &str, num_pages: usize) -> Config {
    Config {
        chain_id: 11155111,
        eth_wallet_private_key: String::from("key"),
        rpc_url: String::from("http://localhost:8545"),
        contract: String::from("0x0000000000000000000000000000000000000000"),
        directory: String::from("data"),
        file_prefix: String::from(prefix),
        root_hash_file: String::from("root.bin"),
        num_pages,
        page_size: 4096,
    }
}

#[test]
fn page_file_name_is_prefix_and_decimal_number() {
    let c = config("page_", 3);
    assert_eq!(page_file_name(&c, 1), "page_1");
    assert_eq!(page_file_name(&c, 9), "page_9");
    assert_eq!(page_file_name(&c, 10), "page_10");
    assert_eq!(page_file_name(&c, 100), "page_100");
    assert_eq!(page_file_name(&c, 120345), "page_120345");
}

#[test]
fn page_file_name_of_zero_is_a_single_digit() {
    assert_eq!(page_file_name(&config("p", 0), 0), "p0");
}

#[test]
fn page_file_name_of_the_largest_number() {
    let name = page_file_name(&config("", 0), usize::MAX);
    assert_eq!(name, format!("{}", usize::MAX));
}

#[test]
fn page_file_name_matches_formatting() {
    let c = config("mem-", 0);
    let mut i: usize = 0;
    while i < 2000 {
        assert_eq!(page_file_name(&c, i), format!("{}{}", c.file_prefix, i));
        i += 7;
    }
}

#[test]
fn input_file_names_lists_pages_then_root() {
    let names = input_file_names(&config("page_", 3));
    assert_eq!(names, vec!["page_1", "page_2", "page_3", "root.bin"]);
}

#[test]
fn input_file_names_without_pages_is_the_root_alone() {
    let names = input_file_names(&config("page_", 0));
    assert_eq!(names, vec!["root.bin"]);
}

#[test]
fn input_file_names_counts_past_nine() {
    let names = input_file_names(&config("m", 12));
    assert_eq!(names.len(), 13);
    assert_eq!(names[8], "m9");
    assert_eq!(names[9], "m10");
    assert_eq!(names[11], "m12");
    assert_eq!(names[12], "root.bin");
}

#[test]
fn read_input_data_keeps_contents_in_order() {
    let files = vec![b"first".to_vec(), Vec::new(), b"third".to_vec()];
    let inputs = read_input_data(&config("page_", 3), &files, b"root".to_vec()).unwrap();
    assert_eq!(inputs.pages.len(), 3);
    assert_eq!(inputs.pages[0].data, b"first".to_vec());
    assert_eq!(inputs.pages[1].data, Vec::<u8>::new());
    assert_eq!(inputs.pages[2].data, b"third".to_vec());
    assert_eq!(inputs.merkle_root, b"root".to_vec());
}

#[test]
fn read_input_data_refuses_a_wrong_number_of_pages() {
    let files = vec![b"first".to_vec(), b"second".to_vec()];
    let res = read_input_data(&config("page_", 3), &files, Vec::new());
    assert!(matches!(res, Err(InputError::PageCountMismatch)));
    let res = read_input_data(&config("page_", 1), &files, Vec::new());
    assert!(matches!(res, Err(InputError::PageCountMismatch)));
}

#[test]
fn read_input_data_without_pages() {
    let inputs = read_input_data(&config("page_", 0), &Vec::new(), vec![1, 2, 3]).unwrap();
    assert!(inputs.pages.is_empty());
    assert_eq!(inputs.merkle_root, vec![1, 2, 3]);
}

#[test]
fn inputs_read_then_verified() {
    let files = vec![b"a".to_vec(), b"b".to_vec()];
    let root = vec![
        0x80, 0x5b, 0x21, 0xd8, 0x46, 0xb1, 0x89, 0xef, 0xae, 0xb0, 0x37, 0x7d, 0x6b, 0xb0, 0xd2,
        0x01, 0xb3, 0x87, 0x2a, 0x36, 0x3e, 0x60, 0x7c, 0x25, 0x08, 0x8f, 0x02, 0x5b, 0x0c, 0x6a,
        0xe1, 0xf8,
    ];
    let inputs = read_input_data(&config("page_", 2), &files, root.clone()).unwrap();
    assert_eq!(verified_root(&inputs), Ok(root));
}

#[test]
fn config_compares_field_by_field() {
    assert_eq!(config("a", 1), config("a", 1));
    assert_ne!(config("a", 1), config("a", 2));
    assert_ne!(config("a", 1), config("b", 1));
}
