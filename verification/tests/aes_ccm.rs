use mc1322x::aes::{
    block_to_words, words_to_block, Aes, AesCcm16_64_128, Bank, DecryptionFailed, CONTROL0_CLEAR,
    CONTROL0_CLEAR_IRQ, CONTROL0_START, CONTROL1_IDLE, CONTROL1_IDLE_CBC, CONTROL1_IDLE_CTR,
    CONTROL1_TEST, STATUS_DONE, STATUS_TEST_PASS,
};
use mc1322x::port::{Op, Register};

fn xtime(a: u8) -> u8 {
    (a << 1) ^ (if a & 0x80 != 0 { 0x1b } else { 0 })
}

fn gmul(mut a: u8, mut b: u8) -> u8 {
    let mut p = 0u8;
    while b != 0 {
        if b & 1 != 0 {
            p ^= a;
        }
        a = xtime(a);
        b >>= 1;
    }
    p
}

fn sub(a: u8) -> u8 {
    let mut inv = 0u8;
    if a != 0 {
        for c in 1..=255u8 {
            if gmul(a, c) == 1 {
                inv = c;
                break;
            }
        }
    }
    inv ^ inv.rotate_left(1) ^ inv.rotate_left(2) ^ inv.rotate_left(3) ^ inv.rotate_left(4) ^ 0x63
}

fn sbox() -> [u8; 256] {
    let mut table = [0u8; 256];
    for (i, entry) in table.iter_mut().enumerate() {
        *entry = sub(i as u8);
    }
    table
}

fn aes128(key: [u8; 16], block: [u8; 16]) -> [u8; 16] {
    let sbox = sbox();
    let mut w = [[0u8; 4]; 44];
    for i in 0..4 {
        w[i].copy_from_slice(&key[4 * i..4 * i + 4]);
    }
    let mut rcon = 1u8;
    for i in 4..44 {
        let mut t = w[i - 1];
        if i % 4 == 0 {
            t = [
                sbox[t[1] as usize] ^ rcon,
                sbox[t[2] as usize],
                sbox[t[3] as usize],
                sbox[t[0] as usize],
            ];
            rcon = xtime(rcon);
        }
        for j in 0..4 {
            w[i][j] = w[i - 4][j] ^ t[j];
        }
    }
    let mut s = block;
    let add = |s: &mut [u8; 16], round: usize, w: &[[u8; 4]; 44]| {
        for c in 0..4 {
            for r in 0..4 {
                s[4 * c + r] ^= w[4 * round + c][r];
            }
        }
    };
    add(&mut s, 0, &w);
    for round in 1..=10 {
        for b in s.iter_mut() {
            *b = sbox[*b as usize];
        }
        let t = s;
        for c in 0..4 {
            for r in 0..4 {
                s[4 * c + r] = t[4 * ((c + r) % 4) + r];
            }
        }
        if round != 10 {
            for c in 0..4 {
                let a = [s[4 * c], s[4 * c + 1], s[4 * c + 2], s[4 * c + 3]];
                for r in 0..4 {
                    s[4 * c + r] = gmul(a[r], 2)
                        ^ gmul(a[(r + 1) % 4], 3)
                        ^ a[(r + 2) % 4]
                        ^ a[(r + 3) % 4];
                }
            }
        }
        add(&mut s, round, &w);
    }
    s
}

/// The security module, as far as the programs can tell.
struct Module {
    key: [u32; 4],
    data: [u32; 4],
    ctr: [u32; 4],
    ctr_result: [u8; 16],
    mac: [u8; 16],
    control1: u32,
    done: bool,
    starts: usize,
}

impl Module {
    fn new() -> Module {
        Module {
            key: [0xDEAD_BEEF; 4],
            data: [0x1234_5678; 4],
            ctr: [7; 4],
            ctr_result: [0xA5; 16],
            mac: [0x5A; 16],
            control1: 0,
            done: false,
            starts: 0,
        }
    }

    fn fire(&mut self) {
        self.starts += 1;
        assert!(!self.done, "started before the done flag was cleared");
        self.done = true;
        let key = words_to_block(&self.key);
        let data = words_to_block(&self.data);
        if self.control1 == CONTROL1_IDLE_CTR {
            let stream = aes128(key, words_to_block(&self.ctr));
            for i in 0..16 {
                self.ctr_result[i] = data[i] ^ stream[i];
            }
        } else if self.control1 == CONTROL1_IDLE_CBC {
            let mut input = [0u8; 16];
            for i in 0..16 {
                input[i] = data[i] ^ self.mac[i];
            }
            self.mac = aes128(key, input);
        } else {
            panic!("started in no mode");
        }
    }

    fn run(&mut self, program: &[Op]) -> Vec<u32> {
        let mut replies = Vec::new();
        for op in program {
            match *op {
                Op::Write { reg, value } => match reg {
                    Register::AsmKey(n) => self.key[n as usize] = value,
                    Register::AsmData(n) => self.data[n as usize] = value,
                    Register::AsmCtr(n) => self.ctr[n as usize] = value,
                    Register::AsmControl1 => self.control1 = value,
                    Register::AsmControl0 => {
                        if value == CONTROL0_START {
                            self.fire();
                        } else if value == CONTROL0_CLEAR {
                            self.mac = [0; 16];
                        } else {
                            assert_eq!(value, CONTROL0_CLEAR_IRQ);
                            self.done = false;
                        }
                    }
                    _ => panic!("wrote {:?}", reg),
                },
                Op::Read { reg } => match reg {
                    Register::AsmCtrResult(n) => {
                        replies.push(block_to_words(&self.ctr_result)[n as usize])
                    }
                    Register::AsmCbcResult(n) => {
                        replies.push(block_to_words(&self.mac)[n as usize])
                    }
                    _ => panic!("read {:?}", reg),
                },
                Op::WaitSet { reg, bits } => {
                    assert_eq!(reg, Register::AsmStatus);
                    assert_eq!(bits, STATUS_DONE);
                    assert!(self.done);
                }
                _ => panic!("did {:?}", op),
            }
        }
        replies
    }
}

fn engine() -> Aes {
    Aes::new(STATUS_TEST_PASS)
}

fn encrypt(
    module: &mut Module,
    key: &[u8; 16],
    nonce: &[u8],
    message: &mut [u8],
    aad: &Vec<Vec<u8>>,
) -> [u8; 8] {
    let aes = engine();
    let program = aes.encrypt_in_place(key, nonce, message, aad);
    let replies = module.run(&program);
    aes.encrypted(message, &replies)
}

fn decrypt(
    module: &mut Module,
    key: &[u8; 16],
    nonce: &[u8],
    message: &mut [u8],
    tag: &[u8],
    aad: &Vec<Vec<u8>>,
) -> Result<(), DecryptionFailed> {
    let aes = engine();
    let program = aes.decrypt_in_place(key, nonce, message);
    let replies = module.run(&program);
    let program = aes.decrypted(nonce, message, aad, &replies);
    let replies = module.run(&program);
    aes.verify_tag(message, tag, &replies)
}

const KEY: [u8; 16] = [
    0xC0, 0xC1, 0xC2, 0xC3, 0xC4, 0xC5, 0xC6, 0xC7, 0xC8, 0xC9, 0xCA, 0xCB, 0xCC, 0xCD, 0xCE, 0xCF,
];
const NONCE: [u8; 13] =
    [0x00, 0x00, 0x00, 0x03, 0x02, 0x01, 0x00, 0xA0, 0xA1, 0xA2, 0xA3, 0xA4, 0xA5];
const CIPHERTEXT: [u8; 23] = [
    0x58, 0x8C, 0x97, 0x9A, 0x61, 0xC6, 0x63, 0xD2, 0xF0, 0x66, 0xD0, 0xC2, 0xC0, 0xF9, 0x89, 0x80,
    0x6D, 0x5F, 0x6B, 0x61, 0xDA, 0xC3, 0x84,
];
const TAG: [u8; 8] = [0x17, 0xE8, 0xD1, 0x2C, 0xFD, 0xF9, 0x26, 0xE0];

fn plaintext() -> Vec<u8> {
    (0x08..=0x1E).collect()
}

fn header() -> Vec<u8> {
    (0x00..=0x07).collect()
}

#[test]
fn ecb_matches_fips_197() {
    let aes = engine();
    let key = [
        0x2b, 0x7e, 0x15, 0x16, 0x28, 0xae, 0xd2, 0xa6, 0xab, 0xf7, 0x15, 0x88, 0x09, 0xcf, 0x4f,
        0x3c,
    ];
    let block = [
        0x32, 0x43, 0xf6, 0xa8, 0x88, 0x5a, 0x30, 0x8d, 0x31, 0x31, 0x98, 0xa2, 0xe0, 0x37, 0x07,
        0x34,
    ];
    let mut module = Module::new();
    let replies = module.run(&aes.ecb_encrypt_block(key, block));
    assert_eq!(replies.len(), 4);
    let out = aes.encrypted_block([replies[0], replies[1], replies[2], replies[3]]);
    assert_eq!(
        out,
        [
            0x39, 0x25, 0x84, 0x1d, 0x02, 0xdc, 0x09, 0xfb, 0xdc, 0x11, 0x85, 0x97, 0x19, 0x6a,
            0x0b, 0x32
        ]
    );
}

#[test]
fn ccm_matches_rfc_3610_packet_vector_1() {
    let mut message = plaintext();
    let tag = encrypt(&mut Module::new(), &KEY, &NONCE, &mut message, &vec![header()]);
    assert_eq!(message, CIPHERTEXT.to_vec());
    assert_eq!(tag, TAG);
}

#[test]
fn ccm_decrypts_rfc_3610_packet_vector_1() {
    let mut message = CIPHERTEXT.to_vec();
    let outcome = decrypt(&mut Module::new(), &KEY, &NONCE, &mut message, &TAG, &vec![header()]);
    assert_eq!(outcome, Ok(()));
    assert_eq!(message, plaintext());
}

#[test]
fn a_wrong_tag_leaves_nothing_of_the_message() {
    for i in 0..8 {
        let mut tag = TAG;
        tag[i] ^= 0x80;
        let mut message = CIPHERTEXT.to_vec();
        let outcome =
            decrypt(&mut Module::new(), &KEY, &NONCE, &mut message, &tag, &vec![header()]);
        assert_eq!(outcome, Err(DecryptionFailed));
        assert_eq!(message, vec![0u8; 23]);
    }
}

#[test]
fn changed_additional_data_is_noticed() {
    let mut aad = header();
    aad[3] ^= 1;
    let mut message = CIPHERTEXT.to_vec();
    let outcome = decrypt(&mut Module::new(), &KEY, &NONCE, &mut message, &TAG, &vec![aad]);
    assert_eq!(outcome, Err(DecryptionFailed));
}

#[test]
fn decryption_undoes_encryption_at_every_length() {
    for length in 0..50usize {
        for aad_length in [0usize, 1, 13, 14, 15, 30, 31] {
            let message: Vec<u8> = (0..length).map(|i| (i * 7 + 3) as u8).collect();
            let aad = vec![(0..aad_length).map(|i| (i * 5) as u8).collect::<Vec<u8>>()];
            let mut text = message.clone();
            let mut module = Module::new();
            let tag = encrypt(&mut module, &KEY, &NONCE, &mut text, &aad);
            if length > 0 {
                assert_ne!(text, message);
            }
            assert_eq!(decrypt(&mut module, &KEY, &NONCE, &mut text, &tag, &aad), Ok(()));
            assert_eq!(text, message);
        }
    }
}

#[test]
fn additional_data_counts_as_one_string() {
    let mut one = plaintext();
    let mut other = plaintext();
    let pieces = vec![header()[..3].to_vec(), Vec::new(), header()[3..].to_vec()];
    let first = encrypt(&mut Module::new(), &KEY, &NONCE, &mut one, &vec![header()]);
    let second = encrypt(&mut Module::new(), &KEY, &NONCE, &mut other, &pieces);
    assert_eq!(first, second);
    assert_eq!(one, other);
}

#[test]
fn the_first_block_says_whether_there_is_additional_data() {
    let aes = engine();
    let none = aes.encrypt_in_place(&KEY, &NONCE, &[1, 2, 3], &Vec::new());
    let some = aes.encrypt_in_place(&KEY, &NONCE, &[1, 2, 3], &vec![vec![9]]);
    // Four key words, the mode, and then the first word of the first block.
    assert_eq!(none[5], Op::Write { reg: Register::AsmData(0), value: 0x1900_0000 });
    assert_eq!(some[5], Op::Write { reg: Register::AsmData(0), value: 0x5900_0000 });
    assert_eq!(none[8], Op::Write { reg: Register::AsmData(3), value: 0xA4A5_0003 });
}

#[test]
fn the_number_of_operations_follows_the_blocks() {
    let mut module = Module::new();
    let mut message = vec![0u8; 33];
    encrypt(&mut module, &KEY, &NONCE, &mut message, &vec![vec![1; 15]]);
    // One first block, two of additional data, three of message, one mask, three of key stream.
    assert_eq!(module.starts, 1 + 2 + 3 + 1 + 3);
}

#[test]
fn words_are_big_endian() {
    let block = [0, 1, 2, 3, 4, 5, 6, 7, 8, 9, 10, 11, 12, 13, 14, 15];
    let words = [0x0001_0203, 0x0405_0607, 0x0809_0A0B, 0x0C0D_0E0F];
    assert_eq!(block_to_words(&block), words);
    assert_eq!(words_to_block(&words), block);
}

#[test]
fn banks_name_their_registers() {
    assert_eq!(Bank::Key.reg(2), Register::AsmKey(2));
    assert_eq!(Bank::Ctr.reg(0).address(), 0x8000_8020);
    assert_eq!(Bank::CtrResult.reg(3).address(), 0x8000_803C);
    assert_eq!(Bank::CbcResult.reg(1).address(), 0x8000_8044);
}

#[test]
fn bring_up_runs_the_self_test_and_ends_in_normal_mode() {
    let program = Aes::bring_up();
    assert_eq!(program.len(), 11);
    assert_eq!(program[6], Op::Write { reg: Register::AsmControl1, value: CONTROL1_TEST });
    assert_eq!(program[8], Op::Spin { iterations: 3330 });
    assert_eq!(program[9], Op::Read { reg: Register::AsmStatus });
    assert_eq!(program[10], Op::Write { reg: Register::AsmControl1, value: CONTROL1_IDLE });
    assert!(Aes::self_test_passed(0x0300_0000));
    assert!(!Aes::self_test_passed(0x0100_0000));
}

#[test]
fn the_algorithm_is_cose_number_10() {
    let algorithm = AesCcm16_64_128::from_cose_number(10).unwrap();
    assert_eq!(algorithm.key_length(), 16);
    assert_eq!(algorithm.nonce_length(), 13);
    assert_eq!(algorithm.tag_length(), 8);
    assert_eq!(AesCcm16_64_128::from_cose_number(11), None);
    assert_eq!(AesCcm16_64_128::from_cose_number(-10), None);
    assert_eq!(engine().load_from_keydata(&KEY), KEY);
}

#[test]
fn additional_data_in_parts_gives_the_same_blocks() {
    let aes = engine();
    let data: Vec<u8> = (0..70).collect();
    let whole = aes.encrypt_in_place(&KEY, &NONCE, &[1, 2, 3], &vec![data.clone()]);
    for size in [1usize, 7, 13, 14, 15, 16, 17, 31, 69] {
        let parts: Vec<Vec<u8>> = data.chunks(size).map(|part| part.to_vec()).collect();
        assert_eq!(aes.encrypt_in_place(&KEY, &NONCE, &[1, 2, 3], &parts), whole);
    }
    // Key, B_0, and then the length and the first fourteen bytes as one block.
    let split = aes.encrypt_in_place(&KEY, &NONCE, &[], &vec![vec![0xA0; 5], vec![0xB0; 9]]);
    assert_eq!(split[4 + 9 + 1], Op::Write { reg: Register::AsmData(0), value: 0x000E_A0A0 });
    assert_eq!(split[4 + 9 + 2], Op::Write { reg: Register::AsmData(1), value: 0xA0A0_A0B0 });
    assert_eq!(split[4 + 9 + 4], Op::Write { reg: Register::AsmData(3), value: 0xB0B0_B0B0 });
}
