use surge::decimal::Decimal;
use surge::list::List;
use surge::map::AssocMap;
use surge::requests::{PriceLimit, RequestIndexRef, SlippageLimit};

const UNIT: i128 = 1_000_000_000_000_000_000;

fn d(x: i128) -> Decimal {
    Decimal::from_attos(x)
}

#[test]
fn arithmetic_is_exact_to_eighteen_places() {
    assert!(d(3 * UNIT / 2).mul(d(UNIT / 4)).eq(d(375 * UNIT / 1000)));
    assert!(d(UNIT).div(d(3 * UNIT)).eq(d(333_333_333_333_333_333)));
    assert!(d(-UNIT).div(d(3 * UNIT)).eq(d(-333_333_333_333_333_333)));
    assert!(d(-5).abs().eq(d(5)));
    assert!(Decimal::from_int(-2).eq(d(-2 * UNIT)));
    assert!(d(2).clamp(d(3), d(5)).eq(d(3)));
}

#[test]
fn checked_arithmetic_reports_overflow() {
    assert!(Decimal::max_value().checked_add(d(1)).is_none());
    assert!(Decimal::max_value().checked_mul(d(2 * UNIT)).is_none());
    assert!(d(UNIT).checked_div(d(0)).is_none());
    assert!(d(UNIT).checked_sub(d(3 * UNIT)).unwrap().eq(d(-2 * UNIT)));
}

#[test]
fn rounding_to_places() {
    assert!(d(1_234_567).round_up(12).unwrap().eq(d(2_000_000)));
    assert!(d(-1_234_567).round_up(12).unwrap().eq(d(-1_000_000)));
    assert!(d(1_234_567).round_to_zero(12).eq(d(1_000_000)));
    assert!(d(-1_234_567).round_to_zero(12).eq(d(-1_000_000)));
    assert!(Decimal::max_value().round_up(0).is_none());
}

#[test]
fn to_i64_only_when_it_fits() {
    assert_eq!(d(-42).to_i64(), Some(-42));
    assert_eq!(d(i64::MAX as i128).to_i64(), Some(i64::MAX));
    assert_eq!(d(i64::MAX as i128 + 1).to_i64(), None);
    assert_eq!(d(i64::MIN as i128).to_i64(), Some(i64::MIN));
}

#[test]
fn price_limits_compare() {
    assert!(PriceLimit::Gte(d(10)).compare(d(10)));
    assert!(!PriceLimit::Gte(d(10)).compare(d(9)));
    assert!(PriceLimit::Lte(d(10)).compare(d(9)));
    assert!(PriceLimit::Unlimited.compare(d(-1)));
    assert_eq!(PriceLimit::Lte(d(1)).op(), "<=");
    assert!(PriceLimit::Unlimited.price().is_zero());
}

#[test]
fn slippage_limits_compare() {
    let amount = d(200 * UNIT);
    assert!(SlippageLimit::Percent(d(UNIT)).allowed_slippage(amount).eq(d(2 * UNIT)));
    assert!(SlippageLimit::Percent(d(UNIT)).compare(d(2 * UNIT), amount));
    assert!(!SlippageLimit::Percent(d(UNIT)).compare(d(2 * UNIT + 1), amount));
    assert!(SlippageLimit::Absolute(d(5)).compare(d(5), amount));
    assert!(SlippageLimit::Unlimited.compare(Decimal::max_value(), amount));
}

#[test]
fn request_references_resolve() {
    assert_eq!(RequestIndexRef::Index(4).resolve(10), 4);
    assert_eq!(RequestIndexRef::RelativeIndex(2).resolve(10), 12);
}

#[test]
fn list_keeps_pushed_items_in_order() {
    let mut list: List<u32> = List::new();
    list.push(7);
    list.push(8);
    list.push(9);
    assert_eq!(list.len(), 3);
    assert_eq!(*list.get(1).unwrap(), 8);
    assert!(list.get(3).is_none());
    list.update(1, 80);
    assert_eq!(list.range(1, 5).into_iter().copied().collect::<Vec<u32>>(), vec![80, 9]);
    assert!(list.range(2, 1).is_empty());
}

#[test]
fn map_insert_replaces_in_place() {
    let mut m: AssocMap<u64, u64> = AssocMap::new();
    m.insert(3, 30);
    m.insert(1, 10);
    m.insert(3, 33);
    assert_eq!(m.len(), 2);
    assert_eq!(*m.key_at(0), 3);
    assert_eq!(*m.get(&3).unwrap(), 33);
    assert_eq!(m.take(&1), Some(10));
    assert!(!m.contains_key(&1));
    m.remove(&3);
    assert_eq!(m.len(), 0);
}

#[test]
fn the_least_decimal_has_no_product_or_quotient() {
    // −2^191: the ledger converts a product's magnitude, and 2^191 does not fit
    let least = Decimal { digits: [0, 0, 1u64 << 63] };
    assert!(least.checked_mul(Decimal::one()).is_none());
    assert!(least.checked_div(Decimal::one()).is_none());
    let next = Decimal { digits: [1, 0, 1u64 << 63] };
    assert!(next.checked_mul(Decimal::one()).unwrap().eq(next));
    assert!(next.checked_div(Decimal::one()).unwrap().eq(next));
}
