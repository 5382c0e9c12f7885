//! The data that enters the root computation: pages, the expected root and
//! the configuration that says where they are found.

use vstd::prelude::*;
use vstd::slice::slice_to_vec;
use vstd::string::StringExecFns;

verus! {

/// One memory page: raw bytes with no structure of their own.
#[derive(Clone, Debug)]
pub struct Page {
    pub data: Vec<u8>,
}

/// The pages, in order, and the root they are expected to reduce to.
#[derive(Clone, Debug)]
pub struct Inputs {
    pub pages: Vec<Page>,
    pub merkle_root: Vec<u8>,
}

/// The byte contents of a sequence of pages, in page order.
pub open spec fn page_bytes(pages: Seq<Page>) -> Seq<Seq<u8>> {
    Seq::new(pages.len(), |i: int| pages[i].data@)
}

/// Where the pages and the expected root are kept, and where the root is
/// to be published.
#[derive(Clone, Debug, PartialEq, Eq)]
pub struct Config {
    /// Ethereum chain ID
    pub chain_id: u64,
    /// Private key of the wallet that signs the transaction
    pub eth_wallet_private_key: String,
    /// Ethereum node endpoint
    pub rpc_url: String,
    /// Address of the application's contract
    pub contract: String,
    /// Directory with the page files
    pub directory: String,
    /// Prefix of the page files' names
    pub file_prefix: String,
    /// Name of the file with the expected root
    pub root_hash_file: String,
    /// Number of pages to read
    pub num_pages: usize,
    /// Size of each page
    pub page_size: usize,
}

/// Why the contents handed over do not make up the inputs.
#[derive(Clone, Copy, Debug, PartialEq, Eq, Structural)]
pub enum InputError {
    /// The number of page contents is not the configured number of pages.
    PageCountMismatch,
}

/// The character of a decimal digit.
pub open spec fn digit_char(d: nat) -> char {
    if d == 0 {
        '0'
    } else if d == 1 {
        '1'
    } else if d == 2 {
        '2'
    } else if d == 3 {
        '3'
    } else if d == 4 {
        '4'
    } else if d == 5 {
        '5'
    } else if d == 6 {
        '6'
    } else if d == 7 {
        '7'
    } else if d == 8 {
        '8'
    } else {
        '9'
    }
}

/// A number in decimal, most significant digit first, without leading
/// zeros; zero is a single `0`.
pub open spec fn decimal_digits(n: nat) -> Seq<char>
    decreases n,
{
    if n < 10 {
        seq![digit_char(n)]
    } else {
        decimal_digits(n / 10).push(digit_char(n % 10))
    }
}

/// The name of the file that holds page number `index`: the prefix followed
/// by the number in decimal.
pub open spec fn page_file_name_spec(config: Config, index: nat) -> Seq<char> {
    config.file_prefix@ + decimal_digits(index)
}

/// The names of the files to read, in reading order: the pages from number
/// one to the configured number, then the file of the expected root.
pub open spec fn input_file_names_spec(config: Config) -> Seq<Seq<char>> {
    Seq::new(
        config.num_pages as nat + 1,
        |i: int|
            if i < config.num_pages {
                page_file_name_spec(config, (i + 1) as nat)
            } else {
                config.root_hash_file@
            },
    )
}

fn digit_str(d: usize) -> (s: &'static str)
    requires
        d < 10,
    ensures
        s@ == seq![digit_char(d as nat)],
{
    proof {
        reveal_strlit("0");
        reveal_strlit("1");
        reveal_strlit("2");
        reveal_strlit("3");
        reveal_strlit("4");
        reveal_strlit("5");
        reveal_strlit("6");
        reveal_strlit("7");
        reveal_strlit("8");
        reveal_strlit("9");
    }
    let s = if d == 0 {
        "0"
    } else if d == 1 {
        "1"
    } else if d == 2 {
        "2"
    } else if d == 3 {
        "3"
    } else if d == 4 {
        "4"
    } else if d == 5 {
        "5"
    } else if d == 6 {
        "6"
    } else if d == 7 {
        "7"
    } else if d == 8 {
        "8"
    } else {
        "9"
    };
    assert(s@ =~= seq![digit_char(d as nat)]);
    s
}

fn append_decimal(out: &mut String, n: usize)
    ensures
        final(out)@ == old(out)@ + decimal_digits(n as nat),
    decreases n,
{
    if n >= 10 {
        append_decimal(out, n / 10);
    }
    out.append(digit_str(n % 10));
    assert(out@ =~= old(out)@ + decimal_digits(n as nat));
}

/// The name of the file that holds page number `index`.
pub fn page_file_name(config: &Config, index: usize) -> (name: String)
    ensures
        name@ == page_file_name_spec(*config, index as nat),
{
    let mut name = config.file_prefix.clone();
    append_decimal(&mut name, index);
    name
}

/// The names of the files to read, in the order in which their contents are
/// expected: one per page, then the file of the expected root. The names
/// are relative to the configured directory.
pub fn input_file_names(config: &Config) -> (names: Vec<String>)
    ensures
        names@.len() == config.num_pages + 1,
        forall|i: int|
            0 <= i < names@.len() ==> (#[trigger] names@[i])@ == input_file_names_spec(*config)[i],
{
    let mut names: Vec<String> = Vec::new();
    let mut i: usize = 0;
    while i < config.num_pages
        invariant
            i <= config.num_pages,
            names@.len() == i,
            forall|j: int|
                0 <= j < i ==> (#[trigger] names@[j])@ == input_file_names_spec(*config)[j],
        decreases config.num_pages - i,
    {
        let name = page_file_name(config, i + 1);
        names.push(name);
        i += 1;
    }
    names.push(config.root_hash_file.clone());
    names
}

/// The inputs hold exactly what was read: one page per page file, each with
/// that file's content, in the same order, and the root file's content as the
/// expected root.
pub open spec fn inputs_hold(inputs: Inputs, page_files: Seq<Seq<u8>>, root_file: Seq<u8>) -> bool {
    &&& page_bytes(inputs.pages@) == page_files
    &&& inputs.merkle_root@ == root_file
}

/// The contents of the page files as byte strings.
pub open spec fn file_bytes(files: Seq<Vec<u8>>) -> Seq<Seq<u8>> {
    Seq::new(files.len(), |i: int| files[i]@)
}

/// Assembles the inputs from what was read: the content of each page file,
/// in page order, and the content of the root file. The number of page
/// contents must be the configured number of pages.
pub fn read_input_data(config: &Config, page_files: &Vec<Vec<u8>>, root_file: Vec<u8>) -> (res:
    Result<Inputs, InputError>)
    ensures
        page_files@.len() == config.num_pages <==> res is Ok,
        res is Err ==> res->Err_0 == InputError::PageCountMismatch,
        res is Ok ==> inputs_hold(res->Ok_0, file_bytes(page_files@), root_file@),
{
    if page_files.len() != config.num_pages {
        return Err(InputError::PageCountMismatch);
    }
    let mut pages: Vec<Page> = Vec::new();
    let mut i: usize = 0;
    while i < page_files.len()
        invariant
            i <= page_files@.len(),
            pages@.len() == i,
            forall|j: int| 0 <= j < i ==> (#[trigger] pages@[j]).data@ == page_files@[j]@,
        decreases page_files@.len() - i,
    {
        let data = slice_to_vec(page_files[i].as_slice());
        pages.push(Page { data });
        i += 1;
    }
    assert(page_bytes(pages@) =~= file_bytes(page_files@));
    Ok(Inputs { pages, merkle_root: root_file })
}

} // verus!
