//! One pass over the cart: which lines buy, which lines may be rewarded.

use vstd::prelude::*;
use crate::model::{BuyType, CartLine, ClassicPolicy, Merchandise, Target};

verus! {

/// The product that a line sells, if the line is a product variant.
pub open spec fn product_of(line: CartLine) -> Option<Seq<char>> {
    match line.merchandise {
        Merchandise::ProductVariant { product_id, variant_id } => Some(product_id@),
        Merchandise::Other => None,
    }
}

/// Whether the line is a variant of product `pid`.
pub open spec fn sells(line: CartLine, pid: Seq<char>) -> bool {
    product_of(line) == Some(pid)
}

/// Whether some line of the cart is a variant of product `pid`.
pub open spec fn has_product(cart: Seq<CartLine>, pid: Seq<char>) -> bool {
    exists|i: int| 0 <= i < cart.len() && sells(#[trigger] cart[i], pid)
}

/// The lines that are variants of product `pid`, in cart order, each with its
/// whole quantity.
pub open spec fn matched_lines(cart: Seq<CartLine>, pid: Seq<char>) -> Seq<Target>
    decreases cart.len(),
{
    if cart.len() == 0 {
        Seq::empty()
    } else {
        let before = matched_lines(cart.drop_last(), pid);
        match cart.last().merchandise {
            Merchandise::ProductVariant { product_id, variant_id } => if product_id@ == pid {
                before.push(Target { variant_id, quantity: cart.last().quantity })
            } else {
                before
            },
            Merchandise::Other => before,
        }
    }
}

/// The sum of the quantities of `targets`.
pub open spec fn total_quantity(targets: Seq<Target>) -> int
    decreases targets.len(),
{
    if targets.len() == 0 {
        0
    } else {
        total_quantity(targets.drop_last()) + targets.last().quantity
    }
}

/// Whether `pid` is one of `ids`.
pub open spec fn in_collection(ids: Seq<String>, pid: Seq<char>) -> bool {
    exists|j: int| 0 <= j < ids.len() && (#[trigger] ids[j])@ == pid
}

/// Whether the line counts towards the buy quantity: by its product id where
/// the policy names a product, by membership where it names collections. A
/// policy that lacks the field it would need matches nothing.
pub open spec fn is_buy_match(policy: ClassicPolicy, line: CartLine) -> bool {
    match product_of(line) {
        Some(pid) => match policy.buy_type {
            BuyType::Product => match policy.buy_product_id {
                Some(b) => b@ == pid,
                None => false,
            },
            BuyType::Collection => match policy.buy_collection_ids {
                Some(ids) => in_collection(ids@, pid),
                None => false,
            },
        },
        None => false,
    }
}

/// The sum of the quantities of the buy-matching lines.
pub open spec fn buy_quantity(cart: Seq<CartLine>, policy: ClassicPolicy) -> int
    decreases cart.len(),
{
    if cart.len() == 0 {
        0
    } else {
        buy_quantity(cart.drop_last(), policy) + if is_buy_match(policy, cart.last()) {
            cart.last().quantity as int
        } else {
            0
        }
    }
}

/// Whether buy and reward draw on one product.
pub open spec fn same_product(policy: ClassicPolicy) -> bool {
    match policy.buy_product_id {
        Some(b) => b@ == policy.get_product_id@,
        None => false,
    }
}

/// The line as a target that covers its whole quantity, if the line is a
/// product variant.
pub open spec fn whole_line(line: CartLine) -> Option<Target> {
    match line.merchandise {
        Merchandise::ProductVariant { product_id, variant_id } => Some(
            Target { variant_id, quantity: line.quantity },
        ),
        Merchandise::Other => None,
    }
}

/// Whether `t` is line `i` of the cart, a variant of product `pid`, taken whole.
pub open spec fn is_line_of(cart: Seq<CartLine>, pid: Seq<char>, t: Target, i: int) -> bool {
    0 <= i < cart.len() && sells(cart[i], pid) && whole_line(cart[i]) == Some(t)
}

/// Every target of `matched_lines` is a line of the cart that sells `pid`,
/// with that line's variant and quantity.
pub proof fn lemma_matched_lines_are_lines(cart: Seq<CartLine>, pid: Seq<char>, k: int)
    requires
        0 <= k < matched_lines(cart, pid).len(),
    ensures
        exists|i: int| is_line_of(cart, pid, matched_lines(cart, pid)[k], i),
    decreases cart.len(),
{
    if cart.len() > 0 {
        let init = cart.drop_last();
        let last = cart.len() - 1;
        if k < matched_lines(init, pid).len() {
            lemma_matched_lines_are_lines(init, pid, k);
            let i = choose|i: int| is_line_of(init, pid, matched_lines(init, pid)[k], i);
            assert(is_line_of(cart, pid, matched_lines(cart, pid)[k], i));
        } else {
            assert(is_line_of(cart, pid, matched_lines(cart, pid)[k], last));
        }
    }
}

/// Whether two strings hold the same text.
pub fn same_text(a: &String, b: &String) -> (r: bool)
    ensures
        r == (a@ == b@),
{
    *a == *b
}

/// Whether some line of the cart is a variant of product `pid`.
pub fn cart_has_product(cart: &Vec<CartLine>, pid: &String) -> (r: bool)
    ensures
        r == has_product(cart@, pid@),
{
    let mut i: usize = 0;
    while i < cart.len()
        invariant
            i <= cart@.len(),
            forall|j: int| 0 <= j < i ==> !sells(#[trigger] cart@[j], pid@),
        decreases cart@.len() - i,
    {
        match &cart[i].merchandise {
            Merchandise::ProductVariant { product_id, variant_id } => {
                if same_text(product_id, pid) {
                    assert(sells(cart@[i as int], pid@));
                    return true;
                }
            },
            Merchandise::Other => {},
        }
        i += 1;
    }
    false
}

/// The lines that are variants of product `pid`, and their total quantity.
pub fn collect_matches(cart: &Vec<CartLine>, pid: &String) -> (r: (Vec<Target>, i128))
    ensures
        r.0@ == matched_lines(cart@, pid@),
        r.1 == total_quantity(r.0@),
{
    let mut targets: Vec<Target> = Vec::new();
    let mut total: i128 = 0;
    let mut i: usize = 0;
    while i < cart.len()
        invariant
            i <= cart@.len(),
            targets@ == matched_lines(cart@.take(i as int), pid@),
            total == total_quantity(targets@),
            -(i * 0x8000_0000) <= total <= i * 0x8000_0000,
        decreases cart@.len() - i,
    {
        proof {
            assert(cart@.take(i + 1).drop_last() =~= cart@.take(i as int));
        }
        let line = &cart[i];
        match &line.merchandise {
            Merchandise::ProductVariant { product_id, variant_id } => {
                if same_text(product_id, pid) {
                    let ghost before = targets@;
                    targets.push(Target { variant_id: variant_id.clone(), quantity: line.quantity });
                    total = total + line.quantity as i128;
                    assert(targets@.drop_last() =~= before);
                }
            },
            Merchandise::Other => {},
        }
        i += 1;
    }
    assert(cart@.take(i as int) =~= cart@);
    (targets, total)
}

/// Whether `pid` is one of `ids`.
pub fn collection_holds(ids: &Vec<String>, pid: &String) -> (r: bool)
    ensures
        r == in_collection(ids@, pid@),
{
    let mut j: usize = 0;
    while j < ids.len()
        invariant
            j <= ids@.len(),
            forall|k: int| 0 <= k < j ==> (#[trigger] ids@[k])@ != pid@,
        decreases ids@.len() - j,
    {
        if same_text(&ids[j], pid) {
            return true;
        }
        j += 1;
    }
    false
}

/// Whether the line counts towards the buy quantity.
pub fn line_buys(policy: &ClassicPolicy, line: &CartLine) -> (r: bool)
    ensures
        r == is_buy_match(*policy, *line),
{
    match &line.merchandise {
        Merchandise::ProductVariant { product_id, variant_id } => match policy.buy_type {
            BuyType::Product => match &policy.buy_product_id {
                Some(b) => same_text(b, product_id),
                None => false,
            },
            BuyType::Collection => match &policy.buy_collection_ids {
                Some(ids) => collection_holds(ids, product_id),
                None => false,
            },
        },
        Merchandise::Other => false,
    }
}

/// The sum of the quantities of the buy-matching lines. No line adds more
/// than an `i32` holds, which bounds the sum by the length of the cart.
pub fn sum_buy_quantity(cart: &Vec<CartLine>, policy: &ClassicPolicy) -> (total: i128)
    ensures
        total == buy_quantity(cart@, *policy),
        -(cart@.len() * 0x8000_0000) <= total <= cart@.len() * 0x8000_0000,
{
    let mut total: i128 = 0;
    let mut i: usize = 0;
    while i < cart.len()
        invariant
            i <= cart@.len(),
            total == buy_quantity(cart@.take(i as int), *policy),
            -(i * 0x8000_0000) <= total <= i * 0x8000_0000,
        decreases cart@.len() - i,
    {
        proof {
            assert(cart@.take(i + 1).drop_last() =~= cart@.take(i as int));
        }
        if line_buys(policy, &cart[i]) {
            total = total + cart[i].quantity as i128;
        }
        i += 1;
    }
    assert(cart@.take(i as int) =~= cart@);
    total
}

/// Whether buy and reward draw on one product.
pub fn is_same_product(policy: &ClassicPolicy) -> (r: bool)
    ensures
        r == same_product(*policy),
{
    match &policy.buy_product_id {
        Some(b) => same_text(b, &policy.get_product_id),
        None => false,
    }
}

} // verus!
