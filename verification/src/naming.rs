use sha2::{Digest, Sha256};
use vstd::prelude::*;

verus! {

/// The SHA-256 digest of a byte string.
pub uninterp spec fn sha256_digest(data: Seq<u8>) -> Seq<u8>;

/// `Sha256::digest` from the `sha2` crate: the digest of `data`, which has 32 bytes.
#[verifier::external_body]
fn sha256(data: &[u8]) -> (r: Vec<u8>)
    ensures
        r@ == sha256_digest(data@),
        r@.len() == 32,
{
    Sha256::digest(data).to_vec()
}

/// The lowercase hexadecimal digit of a value below 16.
pub open spec fn hex_digit(n: int) -> char {
    if n < 10 {
        (48 + n) as char
    } else {
        (87 + n) as char
    }
}

/// One character per digest byte: the first digit of its two-digit lowercase
/// hexadecimal form, for the first `n` bytes.
pub open spec fn hash_prefix(digest: Seq<u8>, n: int) -> Seq<char> {
    Seq::new(n as nat, |i: int| hex_digit((digest[i] / 16) as int))
}

/// How many digest bytes name the file: the configured length, at most the 32 bytes
/// of a SHA-256 digest.
pub open spec fn prefix_length(configured: usize) -> int {
    if configured < 32 {
        configured as int
    } else {
        32
    }
}

/// The name of the file that holds a key: `cache_`, the hash prefix of the key's
/// UTF-8 bytes, and `.bin`.
pub open spec fn cache_file_name(key: Seq<char>, configured: usize) -> Seq<char> {
    seq!['c', 'a', 'c', 'h', 'e', '_'] + hash_prefix(
        sha256_digest(vstd::utf8::encode_utf8(key)),
        prefix_length(configured),
    ) + seq!['.', 'b', 'i', 'n']
}

/// The hexadecimal digit of a value below 16, as a one-character string.
fn hex_digit_str(n: u8) -> (r: &'static str)
    requires
        n < 16,
    ensures
        r@ == seq![hex_digit(n as int)],
{
    match n {
        0 => {
            proof {
                reveal_strlit("0");
            }
            "0"
        },
        1 => {
            proof {
                reveal_strlit("1");
            }
            "1"
        },
        2 => {
            proof {
                reveal_strlit("2");
            }
            "2"
        },
        3 => {
            proof {
                reveal_strlit("3");
            }
            "3"
        },
        4 => {
            proof {
                reveal_strlit("4");
            }
            "4"
        },
        5 => {
            proof {
                reveal_strlit("5");
            }
            "5"
        },
        6 => {
            proof {
                reveal_strlit("6");
            }
            "6"
        },
        7 => {
            proof {
                reveal_strlit("7");
            }
            "7"
        },
        8 => {
            proof {
                reveal_strlit("8");
            }
            "8"
        },
        9 => {
            proof {
                reveal_strlit("9");
            }
            "9"
        },
        10 => {
            proof {
                reveal_strlit("a");
            }
            "a"
        },
        11 => {
            proof {
                reveal_strlit("b");
            }
            "b"
        },
        12 => {
            proof {
                reveal_strlit("c");
            }
            "c"
        },
        13 => {
            proof {
                reveal_strlit("d");
            }
            "d"
        },
        14 => {
            proof {
                reveal_strlit("e");
            }
            "e"
        },
        15 => {
            proof {
                reveal_strlit("f");
            }
            "f"
        },
        _ => {
            proof {
                reveal_strlit("f");
            }
            "f"
        }
    }
}

/// The file name for `key` when `configured` digest bytes name the file.
pub fn file_name_for_key(key: &str, configured: usize) -> (r: String)
    ensures
        r@ == cache_file_name(key@, configured),
{
    let digest = sha256(key.as_bytes());
    let n: usize = if configured < 32 {
        configured
    } else {
        32
    };
    proof {
        reveal_strlit("cache_");
        reveal_strlit(".bin");
    }
    let mut name = String::from_str("cache_");
    let ghost head = name@;
    let mut i: usize = 0;
    while i < n
        invariant
            i <= n,
            n == prefix_length(configured),
            digest@.len() == 32,
            n <= 32,
            head == seq!['c', 'a', 'c', 'h', 'e', '_'],
            name@ == head + hash_prefix(digest@, i as int),
        decreases n - i,
    {
        let d = hex_digit_str(digest[i] / 16);
        let ghost before = name@;
        name.append(d);
        proof {
            assert(hash_prefix(digest@, i + 1) =~= hash_prefix(digest@, i as int).push(
                hex_digit((digest@[i as int] / 16) as int),
            ));
            assert(name@ =~= head + hash_prefix(digest@, i + 1));
        }
        i = i + 1;
    }
    name.append(".bin");
    name
}

} // verus!
