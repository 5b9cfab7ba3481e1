use oracle_registry::address::{name_seed, oracle_address, provider_address};
use oracle_registry::encoding::encode_u32;
use oracle_registry::oracle::{self, Oracle, OracleData, Update};
use oracle_registry::provider::{self, Provider, MAX_DATA_SIZE};
use oracle_registry::{Account, Address};

fn id(b: u8) -> Address {
    Address::new([b; 32])
}

fn provider_program() -> Address {
    id(7)
}

fn oracle_program() -> Address {
    id(9)
}

fn entry(name: &str, value: &str) -> OracleData {
    OracleData { name: name.to_string(), value: value.to_string() }
}

fn provider_slot(name: &str) -> (Address, u8) {
    let mut bump: u8 = 255;
    loop {
        if let Some(a) = provider_address(name, bump, &provider_program()) {
            return (a, bump);
        }
        bump -= 1;
    }
}

fn oracle_slot(provider: &Address, name: &str) -> (Address, u8) {
    let mut bump: u8 = 255;
    loop {
        if let Some(a) = oracle_address(provider, name, bump, &oracle_program()) {
            return (a, bump);
        }
        bump -= 1;
    }
}

fn make_provider(name: &str, size: u32, authority: Address) -> Account<Provider> {
    let (key, bump) = provider_slot(name);
    let ctx = provider::Initialize {
        program_id: provider_program(),
        provider: key,
        provider_in_use: false,
        user: authority,
    };
    provider::initialize(&ctx, name.to_string(), size, bump).unwrap()
}

fn oracle_ctx(p: &Account<Provider>, name: &str, user: Address) -> (oracle::Initialize, u8) {
    let (key, bump) = oracle_slot(&p.key, name);
    let ctx = oracle::Initialize {
        program_id: oracle_program(),
        provider_program_id: provider_program(),
        oracle: key,
        oracle_in_use: false,
        oracle_provider: p.clone(),
        user,
    };
    (ctx, bump)
}

fn make_oracle(p: &Account<Provider>, name: &str, data: Vec<OracleData>) -> Account<Oracle> {
    let (ctx, bump) = oracle_ctx(p, name, p.data.authority);
    oracle::initialize(&ctx, name.to_string(), data, bump).unwrap()
}

fn same_entries(a: &[OracleData], b: &[OracleData]) -> bool {
    a.len() == b.len() && a.iter().zip(b.iter()).all(|(x, y)| x.name == y.name && x.value == y.value)
}

#[test]
fn provider_capacity_out_of_range_is_rejected() {
    for size in [11u32, 12, 100, u32::MAX] {
        let ctx = provider::Initialize {
            program_id: provider_program(),
            provider: id(1),
            provider_in_use: true,
            user: id(2),
        };
        let r = provider::initialize(&ctx, "weather".to_string(), size, 0);
        assert_eq!(r.unwrap_err(), provider::ErrorCode::ProviderInvalidSize);
    }
}

#[test]
fn provider_capacity_in_range_is_stored() {
    for size in 0..=MAX_DATA_SIZE {
        let p = make_provider("weather", size, id(1));
        assert_eq!(p.data.data_size, size);
        assert_eq!(p.data.authority, id(1));
        assert_eq!(p.data.name, "weather");
        assert_eq!(p.owner, provider_program());
        assert_eq!(p.space, 8 + 7 + 32 + 32 + 8);
    }
}

#[test]
fn provider_wrong_address_is_rejected() {
    let (key, bump) = provider_slot("weather");
    let ctx = provider::Initialize {
        program_id: provider_program(),
        provider: id(3),
        provider_in_use: false,
        user: id(1),
    };
    assert_eq!(
        provider::initialize(&ctx, "weather".to_string(), 3, bump).unwrap_err(),
        provider::ErrorCode::ProviderSeedsMismatch
    );
    let ctx = provider::Initialize { provider: key, ..ctx };
    assert!(provider::initialize(&ctx, "weather".to_string(), 3, bump).is_ok());
}

#[test]
fn provider_address_in_use_is_rejected() {
    let (key, bump) = provider_slot("weather");
    let ctx = provider::Initialize {
        program_id: provider_program(),
        provider: key,
        provider_in_use: true,
        user: id(1),
    };
    assert_eq!(
        provider::initialize(&ctx, "weather".to_string(), 3, bump).unwrap_err(),
        provider::ErrorCode::ProviderAlreadyInitialized
    );
}

#[test]
fn record_sizes() {
    assert_eq!(Provider::space("weather"), 87);
    assert_eq!(Provider::space(""), 80);
    assert_eq!(Oracle::space("nyc", &3), 8 + 32 + 3 + 32 + 3 * 68 + 8);
    assert_eq!(Oracle::space("", &0), 80);
    assert_eq!(Oracle::space("nyc", &10), 763);
    assert_eq!(OracleData::space(), 72);
}

#[test]
fn derivation_is_deterministic() {
    let a = provider_address("weather", 250, &provider_program());
    let b = provider_address("weather", 250, &provider_program());
    assert_eq!(a, b);
    let p = id(4);
    assert_eq!(
        oracle_address(&p, "nyc", 200, &oracle_program()),
        oracle_address(&p, "nyc", 200, &oracle_program())
    );
}

#[test]
fn different_short_names_do_not_collide() {
    let (a, _) = provider_slot("weather");
    let (b, _) = provider_slot("weathers");
    let (c, _) = provider_slot("");
    assert_ne!(a, b);
    assert_ne!(a, c);
    assert_ne!(b, c);
    let (o1, _) = oracle_slot(&a, "nyc");
    let (o2, _) = oracle_slot(&a, "sfo");
    let (o3, _) = oracle_slot(&b, "nyc");
    assert_ne!(o1, o2);
    assert_ne!(o1, o3);
}

#[test]
fn derived_address_is_neither_seed_nor_program() {
    let (a, _) = provider_slot("weather");
    assert_ne!(a, provider_program());
    assert_ne!(&a.bytes[..7], "weather".as_bytes());
}

#[test]
fn long_names_share_a_seed() {
    let n1 = "abcdefghijklmnopqrstuvwxyz012345-first";
    let n2 = "abcdefghijklmnopqrstuvwxyz012345-second";
    assert_eq!(name_seed(n1), name_seed(n2));
    assert_eq!(name_seed(n1).len(), 32);
    assert_eq!(name_seed("nyc"), b"nyc".to_vec());
    assert_eq!(provider_slot(n1), provider_slot(n2));
    let p = id(5);
    assert_eq!(oracle_slot(&p, n1), oracle_slot(&p, n2));
    let (k, _) = provider_slot(n1);
    assert_eq!(provider_slot("abcdefghijklmnopqrstuvwxyz012345").0, k);
}

#[test]
fn oracle_creation_requires_the_authority() {
    let p = make_provider("weather", 3, id(1));
    let (ctx, bump) = oracle_ctx(&p, "nyc", id(2));
    assert_eq!(
        oracle::initialize(&ctx, "nyc".to_string(), vec![entry("temp", "72")], bump).unwrap_err(),
        oracle::ErrorCode::OracleUnauthorizedUser
    );
    let (ctx, bump) = oracle_ctx(&p, "nyc", id(1));
    let o = oracle::initialize(&ctx, "nyc".to_string(), vec![entry("temp", "72")], bump).unwrap();
    assert_eq!(o.key, ctx.oracle);
    assert_eq!(o.owner, oracle_program());
    assert_eq!(o.space, 8 + 32 + 3 + 32 + 3 * 68 + 8);
    assert_eq!(o.data.provider_program, provider_program());
    assert_eq!(o.data.name, "nyc");
    assert_eq!(o.data.bump, bump);
    assert!(same_entries(&o.data.data, &[entry("temp", "72")]));
}

#[test]
fn oracle_creation_rejects_foreign_provider() {
    let mut p = make_provider("weather", 3, id(1));
    p.owner = id(8);
    let (ctx, bump) = oracle_ctx(&p, "nyc", id(1));
    assert_eq!(
        oracle::initialize(&ctx, "nyc".to_string(), vec![], bump).unwrap_err(),
        oracle::ErrorCode::OracleUnauthorizedUser
    );
}

#[test]
fn oracle_creation_checks_address() {
    let p = make_provider("weather", 3, id(1));
    let (ctx, bump) = oracle_ctx(&p, "nyc", id(1));
    let wrong = oracle::Initialize { oracle: id(6), ..ctx.clone() };
    assert_eq!(
        oracle::initialize(&wrong, "nyc".to_string(), vec![], bump).unwrap_err(),
        oracle::ErrorCode::OracleSeedsMismatch
    );
    let used = oracle::Initialize { oracle_in_use: true, ..ctx };
    assert_eq!(
        oracle::initialize(&used, "nyc".to_string(), vec![], bump).unwrap_err(),
        oracle::ErrorCode::OracleAlreadyInitialized
    );
}

#[test]
fn oracle_creation_over_capacity_is_rejected() {
    let p = make_provider("weather", 1, id(1));
    let (ctx, bump) = oracle_ctx(&p, "nyc", id(1));
    let data = vec![entry("a", "1"), entry("b", "2")];
    assert_eq!(
        oracle::initialize(&ctx, "nyc".to_string(), data, bump).unwrap_err(),
        oracle::ErrorCode::OracleCapacityExceeded
    );
    let p0 = make_provider("empty", 0, id(1));
    let o = make_oracle(&p0, "nyc", vec![]);
    assert_eq!(o.space, 83);
    assert!(o.data.data.is_empty());
}

#[test]
fn update_scenario() {
    let a = id(1);
    let b = id(2);
    let p = make_provider("weather", 3, a);
    let o = make_oracle(&p, "nyc", vec![entry("temp", "72")]);
    let space = o.space;
    let mut ctx = Update { oracle: o, provider: p.clone(), user: a };

    let next = vec![entry("temp", "75"), entry("humidity", "40")];
    assert!(oracle::update(&mut ctx, next.clone()).is_ok());
    assert!(same_entries(&ctx.oracle.data.data, &next));

    let mut by_b = Update { user: b, ..ctx.clone() };
    assert_eq!(
        oracle::update(&mut by_b, vec![entry("temp", "0")]).unwrap_err(),
        oracle::ErrorCode::OracleUnauthorizedUser
    );
    assert!(same_entries(&by_b.oracle.data.data, &next));

    let four = vec![entry("a", "1"), entry("b", "2"), entry("c", "3"), entry("d", "4")];
    assert_eq!(
        oracle::update(&mut ctx, four).unwrap_err(),
        oracle::ErrorCode::OracleCapacityExceeded
    );
    assert!(same_entries(&ctx.oracle.data.data, &next));
    assert_eq!(ctx.oracle.space, space);
}

#[test]
fn update_replaces_rather_than_merges() {
    let p = make_provider("weather", 3, id(1));
    let o = make_oracle(&p, "nyc", vec![entry("temp", "72"), entry("wind", "5")]);
    let mut ctx = Update { oracle: o, provider: p, user: id(1) };
    assert!(oracle::update(&mut ctx, vec![entry("rain", "0")]).is_ok());
    assert!(same_entries(&ctx.oracle.data.data, &[entry("rain", "0")]));
    assert!(oracle::update(&mut ctx, vec![]).is_ok());
    assert!(ctx.oracle.data.data.is_empty());
}

#[test]
fn update_rejects_foreign_provider() {
    let p = make_provider("weather", 3, id(1));
    let o = make_oracle(&p, "nyc", vec![]);
    let mut foreign = p.clone();
    foreign.owner = id(8);
    let mut ctx = Update { oracle: o, provider: foreign, user: id(1) };
    assert_eq!(
        oracle::update(&mut ctx, vec![entry("temp", "1")]).unwrap_err(),
        oracle::ErrorCode::OracleUnauthorizedUser
    );
}

#[test]
fn footprint_never_changes() {
    let p = make_provider("weather", 3, id(1));
    let o = make_oracle(&p, "nyc", vec![]);
    let space = o.space;
    let key = o.key;
    let mut ctx = Update { oracle: o, provider: p, user: id(1) };
    for i in 0..20u32 {
        let n = (i % 5) as usize;
        let data: Vec<OracleData> = (0..n).map(|j| entry(&format!("k{}", j), &format!("{}", i))).collect();
        let _ = oracle::update(&mut ctx, data);
        assert_eq!(ctx.oracle.space, space);
        assert_eq!(ctx.oracle.key, key);
        assert_eq!(ctx.oracle.data.name, "nyc");
    }
}

#[test]
fn update_over_byte_size_is_rejected() {
    let p = make_provider("weather", 10, id(1));
    let o = make_oracle(&p, "nyc", vec![]);
    let long = "x".repeat(32);
    let full: Vec<OracleData> = (0..10).map(|_| entry(&long, &long)).collect();
    let mut ctx = Update { oracle: o, provider: p, user: id(1) };
    assert_eq!(
        oracle::update(&mut ctx, full).unwrap_err(),
        oracle::ErrorCode::OracleCapacityExceeded
    );
    let fits: Vec<OracleData> = (0..9).map(|_| entry(&long, &long)).collect();
    assert!(oracle::update(&mut ctx, fits).is_ok());
    assert_eq!(ctx.oracle.data.data.len(), 9);
}

#[test]
fn address_comparison() {
    let a = id(1);
    let mut bytes = [1u8; 32];
    assert!(a.same_as(&Address::new(bytes)));
    bytes[31] = 2;
    assert!(!a.same_as(&Address::new(bytes)));
}

#[test]
fn oracle_record_bytes() {
    let o = Oracle {
        provider_program: id(7),
        name: "nyc".to_string(),
        data: vec![entry("temp", "72")],
        bump: 5,
    };
    let mut expected: Vec<u8> = vec![7; 32];
    expected.extend_from_slice(&[3, 0, 0, 0]);
    expected.extend_from_slice(b"nyc");
    expected.extend_from_slice(&[1, 0, 0, 0]);
    expected.extend_from_slice(&[4, 0, 0, 0]);
    expected.extend_from_slice(b"temp");
    expected.extend_from_slice(&[2, 0, 0, 0]);
    expected.extend_from_slice(b"72");
    expected.push(5);
    assert_eq!(o.to_bytes(), expected);
    assert_eq!(o.to_bytes().len(), 58);
}

#[test]
fn empty_oracle_record_bytes() {
    let o = Oracle { provider_program: id(1), name: String::new(), data: vec![], bump: 0 };
    let mut expected: Vec<u8> = vec![1; 32];
    expected.extend_from_slice(&[0, 0, 0, 0, 0, 0, 0, 0, 0]);
    assert_eq!(o.to_bytes(), expected);
}

#[test]
fn little_endian_integers() {
    assert_eq!(encode_u32(0), vec![0, 0, 0, 0]);
    assert_eq!(encode_u32(0x12345678), vec![0x78, 0x56, 0x34, 0x12]);
    assert_eq!(encode_u32(u32::MAX), vec![255, 255, 255, 255]);
}

#[test]
fn update_through_unbound_provider_is_rejected() {
    let a = id(1);
    let b = id(2);
    let pa = make_provider("weather", 3, a);
    let pb = make_provider("traffic", 3, b);
    let o = make_oracle(&pa, "nyc", vec![entry("temp", "72")]);
    let mut ctx = Update { oracle: o, provider: pb, user: b };
    assert_eq!(
        oracle::update(&mut ctx, vec![entry("temp", "0")]).unwrap_err(),
        oracle::ErrorCode::OracleUnauthorizedUser
    );
    assert!(same_entries(&ctx.oracle.data.data, &[entry("temp", "72")]));
}

#[test]
fn long_entries_are_rejected() {
    let p = make_provider("weather", 3, id(1));
    let long = "y".repeat(33);
    let (ctx, bump) = oracle_ctx(&p, "nyc", id(1));
    assert_eq!(
        oracle::initialize(&ctx, "nyc".to_string(), vec![entry(&long, "1")], bump).unwrap_err(),
        oracle::ErrorCode::OracleEntryTooLong
    );
    let o = make_oracle(&p, "nyc", vec![]);
    let mut ctx = Update { oracle: o, provider: p, user: id(1) };
    assert_eq!(
        oracle::update(&mut ctx, vec![entry("temp", &long)]).unwrap_err(),
        oracle::ErrorCode::OracleEntryTooLong
    );
    assert!(oracle::update(&mut ctx, vec![entry("temp", &"z".repeat(32))]).is_ok());
}

#[test]
fn full_list_of_longest_entries_fits_capacity_seven() {
    let p = make_provider("weather", 7, id(1));
    let o = make_oracle(&p, "nyc", vec![]);
    let long = "x".repeat(32);
    let full: Vec<OracleData> = (0..7).map(|_| entry(&long, &long)).collect();
    let mut ctx = Update { oracle: o, provider: p, user: id(1) };
    assert!(oracle::update(&mut ctx, full).is_ok());
    assert_eq!(ctx.oracle.data.data.len(), 7);
}
