//! The storefront's form handling: cart and like actions, the checkout
//! form with its field validation, shipping addresses, and order
//! totals. Costs are held as integer pence.

use vstd::prelude::*;

use crate::text::{
    digits_value, numeric_part, parse_u64, parse_u8, parses_as_u64, parses_as_u8,
    strip_whitespace, stripped,
};

verus! {

/// What a cart or like request asks for.
#[derive(Clone, Copy, Debug, PartialEq, Eq, Structural)]
pub enum Action {
    Add,
    Remove,
}

/// A cart mutation request.
#[derive(Clone, Copy, Debug, PartialEq, Eq, Structural)]
pub struct CartAction {
    pub product_id: i32,
    pub action: Action,
    pub quantity: i32,
}

/// A liked-products mutation request.
#[derive(Clone, Copy, Debug, PartialEq, Eq, Structural)]
pub struct LikeAction {
    pub product_id: i32,
    pub action: Action,
}

/// A request to show one order's details.
#[derive(Clone, Copy, Debug, PartialEq, Eq, Structural)]
pub struct OrderDetailsForm {
    pub order_id: i32,
}

/// One cart row: a user holds a quantity of a product.
#[derive(Clone, Copy, Debug, PartialEq, Eq, Structural)]
pub struct CartProduct {
    pub user_id: i32,
    pub product_id: i32,
    pub quantity: i32,
}

/// The storage operation a valid cart request translates to.
#[derive(Clone, Copy, Debug, PartialEq, Eq, Structural)]
pub enum CartCommand {
    Insert(CartProduct),
    Delete { user_id: i32, product_id: i32 },
}

/// Why a cart addition was refused.
#[derive(Clone, Copy, Debug, PartialEq, Eq, Structural)]
pub enum CartError {
    InvalidQuantity,
    AlreadyInCart,
    NotListed,
}

impl CartError {
    /// The user-facing message for each refusal.
    pub fn message(&self) -> (r: String)
        ensures
            *self is InvalidQuantity ==> r@ == "Invalid Quantity, please only add 1 to 32 of an item"@,
            *self is AlreadyInCart ==> r@ == "This item is already in your cart"@,
            *self is NotListed ==> r@ == "This item is no longer listed"@,
    {
        match self {
            CartError::InvalidQuantity => "Invalid Quantity, please only add 1 to 32 of an item".to_owned(),
            CartError::AlreadyInCart => "This item is already in your cart".to_owned(),
            CartError::NotListed => "This item is no longer listed".to_owned(),
        }
    }
}

/// Decide what a cart request does, given what is known about the
/// product: a removal always goes through; an addition needs a sane
/// quantity, a product not yet in the cart, and a listed product —
/// checked in that order.
pub fn plan_cart_action(
    user_id: i32,
    payload: &CartAction,
    listed: bool,
    already_in_cart: bool,
) -> (r: Result<CartCommand, CartError>)
    ensures
        payload.action is Remove ==> r == Ok::<CartCommand, CartError>(
            CartCommand::Delete { user_id, product_id: payload.product_id },
        ),
        payload.action is Add ==> {
            &&& (r == Err::<CartCommand, CartError>(CartError::InvalidQuantity) <==> !(1
                <= payload.quantity <= 32))
            &&& (r == Err::<CartCommand, CartError>(CartError::AlreadyInCart) <==> (1
                <= payload.quantity <= 32) && already_in_cart)
            &&& (r == Err::<CartCommand, CartError>(CartError::NotListed) <==> (1
                <= payload.quantity <= 32) && !already_in_cart && !listed)
            &&& (r is Ok <==> (1 <= payload.quantity <= 32) && !already_in_cart && listed)
            &&& (r is Ok ==> r == Ok::<CartCommand, CartError>(
                CartCommand::Insert(
                    CartProduct {
                        user_id,
                        product_id: payload.product_id,
                        quantity: payload.quantity,
                    },
                ),
            ))
        },
{
    match payload.action {
        Action::Remove => Ok(CartCommand::Delete { user_id, product_id: payload.product_id }),
        Action::Add => {
            if !(1 <= payload.quantity && payload.quantity <= 32) {
                Err(CartError::InvalidQuantity)
            } else if already_in_cart {
                Err(CartError::AlreadyInCart)
            } else if !listed {
                Err(CartError::NotListed)
            } else {
                Ok(
                    CartCommand::Insert(
                        CartProduct {
                            user_id,
                            product_id: payload.product_id,
                            quantity: payload.quantity,
                        },
                    ),
                )
            }
        },
    }
}

/// A shipping address as it is persisted.
pub struct Address {
    pub user_id: i32,
    pub recipient_name: String,
    pub line_1: String,
    pub line_2: String,
    pub postcode: String,
    pub county: String,
}

/// Why the checkout form was refused.
#[derive(Clone, Copy, Debug, PartialEq, Eq, Structural)]
pub enum CheckoutError {
    InvalidCardNumber,
    InvalidCvv,
    InvalidPostcode,
    InvalidExpiry,
    MissingName,
    MissingAddress,
}

impl CheckoutError {
    /// The user-facing message for each refusal.
    pub fn message(&self) -> (r: String)
        ensures
            *self is InvalidCardNumber ==> r@ == "Please enter a valid card number"@,
            *self is InvalidCvv ==> r@ == "Please enter a valid cvv number"@,
            *self is InvalidPostcode ==> r@ == "Please enter a valid postcode"@,
            *self is InvalidExpiry ==> r@ == "Please enter a valid expiry date"@,
            *self is MissingName ==> r@ == "Please enter your name"@,
            *self is MissingAddress ==> r@ == "Please enter your address"@,
    {
        match self {
            CheckoutError::InvalidCardNumber => "Please enter a valid card number".to_owned(),
            CheckoutError::InvalidCvv => "Please enter a valid cvv number".to_owned(),
            CheckoutError::InvalidPostcode => "Please enter a valid postcode".to_owned(),
            CheckoutError::InvalidExpiry => "Please enter a valid expiry date".to_owned(),
            CheckoutError::MissingName => "Please enter your name".to_owned(),
            CheckoutError::MissingAddress => "Please enter your address".to_owned(),
        }
    }
}

/// How many bytes the UTF-8 form of `s` takes: the length std's
/// `str::len` reports.
pub open spec fn byte_len(s: Seq<char>) -> nat {
    vstd::utf8::encode_utf8(s).len()
}

/// A card number is accepted when, after stripping whitespace, it is at
/// most sixteen bytes and parses as an unsigned number.
pub open spec fn card_number_ok(s: Seq<char>) -> bool {
    byte_len(stripped(s)) <= 16 && parses_as_u64(stripped(s))
}

/// A CVV is accepted when, after stripping whitespace, it is exactly
/// three bytes and parses as an unsigned number.
pub open spec fn cvv_ok(s: Seq<char>) -> bool {
    byte_len(stripped(s)) == 3 && parses_as_u64(stripped(s))
}

/// A postcode is accepted when, after stripping whitespace, it is five
/// to seven bytes long.
pub open spec fn postcode_ok(s: Seq<char>) -> bool {
    5 <= byte_len(stripped(s)) <= 7
}

/// The month field must parse as a byte no larger than twelve; a field
/// that does not parse counts as month 255 and is refused.
pub open spec fn month_ok(s: Seq<char>) -> bool {
    (if parses_as_u8(s) {
        digits_value(numeric_part(s))
    } else {
        255
    }) <= 12
}

/// The year field must parse as a two-digit year from the current one
/// through 99; a field that does not parse counts as year 0.
pub open spec fn year_ok(s: Seq<char>, current_year: u8) -> bool {
    let y = if parses_as_u8(s) {
        digits_value(numeric_part(s))
    } else {
        0
    };
    current_year <= y <= 99
}

/// An expiry is accepted when it holds exactly one slash, the part
/// before it is an accepted month and the part after it an accepted
/// year.
pub open spec fn expiry_ok(s: Seq<char>, current_year: u8) -> bool {
    exists|k: int|
        0 <= k < s.len() && s[k] == '/' && (forall|j: int|
            0 <= j < s.len() && j != k ==> s[j] != '/') && month_ok(s.take(k)) && year_ok(
            s.skip(k + 1),
            current_year,
        )
}

/// Check an expiry field against the current two-digit year.
fn check_expiry(s: &str, current_year: u8) -> (r: bool)
    ensures
        r == expiry_ok(s@, current_year),
{
    let n = s.unicode_len();
    let mut slash_idx: usize = 0;
    let mut slash_cnt: usize = 0;
    for i in 0..n
        invariant
            n == s@.len(),
            slash_cnt <= i,
            slash_cnt == 0 ==> forall|j: int| 0 <= j < i ==> s@[j] != '/',
            slash_cnt == 1 ==> slash_idx < i && s@[slash_idx as int] == '/' && (forall|j: int|
                0 <= j < i && j != slash_idx ==> s@[j] != '/'),
            slash_cnt >= 2 ==> exists|a: int, b: int|
                0 <= a < b < i && s@[a] == '/' && s@[b] == '/',
    {
        if s.get_char(i) == '/' {
            if slash_cnt == 0 {
                slash_idx = i;
            } else if slash_cnt == 1 {
                proof {
                    assert(0 <= slash_idx < i && s@[slash_idx as int] == '/' && s@[i as int]
                        == '/');
                }
            }
            slash_cnt = slash_cnt + 1;
        }
    }
    if slash_cnt != 1 {
        proof {
            if expiry_ok(s@, current_year) {
                let k = choose|k: int|
                    0 <= k < s@.len() && s@[k] == '/' && (forall|j: int|
                        0 <= j < s@.len() && j != k ==> s@[j] != '/') && month_ok(s@.take(k))
                        && year_ok(s@.skip(k + 1), current_year);
                if slash_cnt >= 2 {
                    let (a, b) = choose|a: int, b: int|
                        0 <= a < b < s@.len() && s@[a] == '/' && s@[b] == '/';
                    assert(a != k || b != k);
                }
            }
        }
        return false;
    }
    let k = slash_idx;
    let month_part = s.substring_char(0, k);
    let year_part = s.substring_char(k + 1, n);
    proof {
        assert(month_part@ =~= s@.take(k as int));
        assert(year_part@ =~= s@.skip(k as int + 1));
    }
    let m = match parse_u8(month_part) {
        Some(v) => v,
        None => 255,
    };
    let y = match parse_u8(year_part) {
        Some(v) => v,
        None => 0,
    };
    let ok = m <= 12 && current_year <= y && y <= 99;
    proof {
        if ok {
            assert(expiry_ok(s@, current_year)) by {
                assert(0 <= k < s@.len() && s@[k as int] == '/' && (forall|j: int|
                    0 <= j < s@.len() && j != k ==> s@[j] != '/') && month_ok(s@.take(k as int))
                    && year_ok(s@.skip(k as int + 1), current_year));
            }
        } else {
            if expiry_ok(s@, current_year) {
                let kk = choose|kk: int|
                    0 <= kk < s@.len() && s@[kk] == '/' && (forall|j: int|
                        0 <= j < s@.len() && j != kk ==> s@[j] != '/') && month_ok(s@.take(kk))
                        && year_ok(s@.skip(kk + 1), current_year);
                assert(kk == k);
            }
        }
    }
    ok
}

/// Relies on time::OffsetDateTime::now_utc and year: the current
/// calendar year in UTC, which the time crate keeps within ±9999.
#[verifier::external_body]
fn current_year_utc() -> (y: i32)
    ensures
        -9999 <= y <= 9999,
{
    time::OffsetDateTime::now_utc().year()
}

/// The two-digit year the expiry check compares against: the calendar
/// year less 2000, truncated to a byte.
pub fn current_year_two_digit() -> u8 {
    let y = current_year_utc();
    #[verifier::truncate] ((y - 2000) as u8)
}

/// The checkout form as the client submits it.
pub struct CheckoutForm {
    pub cardnum: String,
    pub expiry: String,
    pub cvv: String,
    pub recipient_name: String,
    pub line_1: String,
    pub line_2: Option<String>,
    pub postcode: String,
    pub county: String,
    pub save_addr: Option<String>,
}

impl CheckoutForm {
    /// All the checks `verify_data` runs, over the submitted values.
    pub open spec fn valid(self, current_year: u8) -> bool {
        &&& card_number_ok(self.cardnum@)
        &&& cvv_ok(self.cvv@)
        &&& postcode_ok(self.postcode@)
        &&& expiry_ok(self.expiry@, current_year)
        &&& self.recipient_name@.len() > 0
        &&& self.line_1@.len() > 0
        &&& self.county@.len() > 0
    }

    /// Validate the form in place: card number, CVV and postcode are
    /// stripped of whitespace as they are checked; the first failing
    /// check names the field. `current_year` is the two-digit year the
    /// card expiry must reach.
    pub fn verify_data(&mut self, current_year: u8) -> (r: Result<(), CheckoutError>)
        ensures
            r is Ok <==> old(self).valid(current_year),
            r == Err::<(), CheckoutError>(CheckoutError::InvalidCardNumber)
                <==> !card_number_ok(old(self).cardnum@),
            r == Err::<(), CheckoutError>(CheckoutError::InvalidCvv) <==> card_number_ok(
                old(self).cardnum@,
            ) && !cvv_ok(old(self).cvv@),
            r == Err::<(), CheckoutError>(CheckoutError::InvalidPostcode) <==> card_number_ok(
                old(self).cardnum@,
            ) && cvv_ok(old(self).cvv@) && !postcode_ok(old(self).postcode@),
            r == Err::<(), CheckoutError>(CheckoutError::InvalidExpiry) <==> card_number_ok(
                old(self).cardnum@,
            ) && cvv_ok(old(self).cvv@) && postcode_ok(old(self).postcode@) && !expiry_ok(
                old(self).expiry@,
                current_year,
            ),
            r == Err::<(), CheckoutError>(CheckoutError::MissingName) <==> card_number_ok(
                old(self).cardnum@,
            ) && cvv_ok(old(self).cvv@) && postcode_ok(old(self).postcode@) && expiry_ok(
                old(self).expiry@,
                current_year,
            ) && old(self).recipient_name@.len() == 0,
            r == Err::<(), CheckoutError>(CheckoutError::MissingAddress) <==> card_number_ok(
                old(self).cardnum@,
            ) && cvv_ok(old(self).cvv@) && postcode_ok(old(self).postcode@) && expiry_ok(
                old(self).expiry@,
                current_year,
            ) && old(self).recipient_name@.len() > 0
                && (old(self).line_1@.len() == 0 || old(self).county@.len() == 0),
            final(self).cardnum@ == stripped(old(self).cardnum@),
            card_number_ok(old(self).cardnum@) ==> final(self).cvv@ == stripped(old(self).cvv@),
            !card_number_ok(old(self).cardnum@) ==> final(self).cvv == old(self).cvv,
            card_number_ok(old(self).cardnum@) && cvv_ok(old(self).cvv@) ==> final(self).postcode@
                == stripped(old(self).postcode@),
            !(card_number_ok(old(self).cardnum@) && cvv_ok(old(self).cvv@))
                ==> final(self).postcode == old(self).postcode,
            final(self).expiry == old(self).expiry,
            final(self).recipient_name == old(self).recipient_name,
            final(self).line_1 == old(self).line_1,
            final(self).line_2 == old(self).line_2,
            final(self).county == old(self).county,
            final(self).save_addr == old(self).save_addr,
    {
        self.cardnum = strip_whitespace(self.cardnum.as_str());
        if !(self.cardnum.as_str().as_bytes().len() <= 16 && parse_u64(
            self.cardnum.as_str(),
        ).is_some()) {
            return Err(CheckoutError::InvalidCardNumber);
        }
        self.cvv = strip_whitespace(self.cvv.as_str());
        if !(self.cvv.as_str().as_bytes().len() == 3 && parse_u64(self.cvv.as_str()).is_some()) {
            return Err(CheckoutError::InvalidCvv);
        }
        self.postcode = strip_whitespace(self.postcode.as_str());
        let postcode_len = self.postcode.as_str().as_bytes().len();
        if !(postcode_len <= 7 && postcode_len >= 5) {
            return Err(CheckoutError::InvalidPostcode);
        }
        if !check_expiry(self.expiry.as_str(), current_year) {
            return Err(CheckoutError::InvalidExpiry);
        }
        if self.recipient_name.as_str().is_empty() {
            return Err(CheckoutError::MissingName);
        }
        if self.line_1.as_str().is_empty() || self.county.as_str().is_empty() {
            return Err(CheckoutError::MissingAddress);
        }
        Ok(())
    }

    /// Turn the validated form into the address row to persist; a
    /// missing second line becomes the empty string.
    pub fn parse_address(self, user_id: i32) -> (r: Address)
        ensures
            r.user_id == user_id,
            r.recipient_name == self.recipient_name,
            r.line_1 == self.line_1,
            r.line_2@ == match self.line_2 {
                Some(l) => l@,
                None => Seq::<char>::empty(),
            },
            r.postcode == self.postcode,
            r.county == self.county,
    {
        Address {
            user_id,
            recipient_name: self.recipient_name,
            line_1: self.line_1,
            line_2: match self.line_2 {
                Some(l) => l,
                None => String::new(),
            },
            postcode: self.postcode,
            county: self.county,
        }
    }
}

/// The total cost of a list of (price in pence, quantity) lines.
pub open spec fn total_pence(items: Seq<(u64, u32)>) -> int
    decreases items.len(),
{
    if items.len() == 0 {
        0
    } else {
        total_pence(items.drop_last()) + items.last().0 as int * items.last().1 as int
    }
}

/// A total is never negative.
proof fn lemma_total_pence_nonneg(items: Seq<(u64, u32)>)
    ensures
        total_pence(items) >= 0,
    decreases items.len(),
{
    if items.len() > 0 {
        lemma_total_pence_nonneg(items.drop_last());
        vstd::arithmetic::mul::lemma_mul_nonnegative(
            items.last().0 as int,
            items.last().1 as int,
        );
    }
}

/// A prefix of the lines never exceeds the whole total.
proof fn lemma_total_pence_prefix(items: Seq<(u64, u32)>, k: int)
    requires
        0 <= k <= items.len(),
    ensures
        total_pence(items.take(k)) <= total_pence(items),
    decreases items.len(),
{
    if k < items.len() {
        let dl = items.drop_last();
        assert(items.take(k) =~= dl.take(k));
        lemma_total_pence_prefix(dl, k);
        vstd::arithmetic::mul::lemma_mul_nonnegative(
            items.last().0 as int,
            items.last().1 as int,
        );
    } else {
        assert(items.take(k) =~= items);
    }
}

/// Sum a cart or order up: each line is price times quantity. `None`
/// exactly when the true total does not fit in a u64.
pub fn order_total(items: &Vec<(u64, u32)>) -> (r: Option<u64>)
    ensures
        r is Some <==> total_pence(items@) <= u64::MAX,
        r matches Some(v) ==> v == total_pence(items@),
{
    let n = items.len();
    let mut acc: u64 = 0;
    proof {
        assert(items@.take(0) =~= Seq::<(u64, u32)>::empty());
    }
    for i in 0..n
        invariant
            n == items@.len(),
            acc == total_pence(items@.take(i as int)),
    {
        let (cost, qty) = items[i];
        proof {
            assert(items@.take(i + 1).drop_last() =~= items@.take(i as int));
            assert(items@.take(i + 1).last() == items@[i as int]);
        }
        let line = match cost.checked_mul(qty as u64) {
            Some(l) => l,
            None => {
                proof {
                    lemma_total_pence_prefix(items@, i + 1);
                }
                return None;
            },
        };
        let next = match acc.checked_add(line) {
            Some(x) => x,
            None => {
                proof {
                    lemma_total_pence_prefix(items@, i + 1);
                }
                return None;
            },
        };
        acc = next;
    }
    proof {
        assert(items@.take(n as int) =~= items@);
    }
    Some(acc)
}

} // verus!
