use vstd::prelude::*;

verus! {

/// The arithmetic that light transport asks of a colour value.
///
/// The library never looks inside a colour: it only combines colours through
/// these operations, and its contracts speak of a result as "what the
/// operation returns on these operands".
pub trait Radiance: Copy {
    /// The colour of no light at all.
    fn black() -> Self;

    /// The channel-wise sum of two colours.
    fn plus(self, other: Self) -> Self;

    /// The channel-wise product of two colours: `self` as the fraction of
    /// `other` that a surface lets through.
    fn times(self, other: Self) -> Self;

    /// The colour multiplied by a sample count.
    fn scale(self, count: usize) -> Self;

    /// The colour divided by a sample count.
    fn average(self, count: usize) -> Self;

    /// The colour as three display bytes: red, green, blue.
    fn to_u8(self) -> (u8, u8, u8);
}

/// `colour` is a value that `Radiance::black` returns.
pub open spec fn is_black<C: Radiance>(colour: C) -> bool {
    call_ensures(C::black, (), colour)
}

/// `sum` is a value that `left.plus(right)` returns.
pub open spec fn is_sum<C: Radiance>(left: C, right: C, sum: C) -> bool {
    call_ensures(C::plus, (left, right), sum)
}

/// `product` is a value that `left.times(right)` returns.
pub open spec fn is_product<C: Radiance>(left: C, right: C, product: C) -> bool {
    call_ensures(C::times, (left, right), product)
}

/// `scaled` is a value that `colour.scale(count)` returns.
pub open spec fn is_scaled<C: Radiance>(colour: C, count: usize, scaled: C) -> bool {
    call_ensures(C::scale, (colour, count), scaled)
}

/// `mean` is a value that `colour.average(count)` returns.
pub open spec fn is_average<C: Radiance>(colour: C, count: usize, mean: C) -> bool {
    call_ensures(C::average, (colour, count), mean)
}

/// `bytes` is a value that `colour.to_u8()` returns.
pub open spec fn is_displayed<C: Radiance>(colour: C, bytes: (u8, u8, u8)) -> bool {
    call_ensures(C::to_u8, (colour,), bytes)
}

/// Some colour is a sum of `left` and `right`.
pub open spec fn has_sum<C: Radiance>(left: C, right: C) -> bool {
    exists|sum: C| is_sum(left, right, sum)
}

/// Some colour is `colour` multiplied by `count`.
pub open spec fn has_scaled<C: Radiance>(colour: C, count: usize) -> bool {
    exists|scaled: C| is_scaled(colour, count, scaled)
}

/// Some colour is `colour` divided by `count`.
pub open spec fn has_average<C: Radiance>(colour: C, count: usize) -> bool {
    exists|mean: C| is_average(colour, count, mean)
}

/// The arithmetic of `C` is exact: any two colours have a sum, addition is
/// associative, a colour can be multiplied by any count and divided by any
/// count but zero, and to multiply a mean by the count that it was taken over
/// gives back the sum.
///
/// This holds of arithmetic on exact numbers. It does not hold of arithmetic
/// that rounds.
pub open spec fn exact<C: Radiance>() -> bool {
    &&& forall|left: C, right: C| #[trigger] has_sum(left, right)
    &&& forall|a: C, b: C, c: C, ab: C, bc: C, abc: C|
        #![trigger is_sum(a, b, ab), is_sum(b, c, bc), is_sum(ab, c, abc)]
        #![trigger is_sum(a, b, ab), is_sum(b, c, bc), is_sum(a, bc, abc)]
        is_sum(a, b, ab) && is_sum(b, c, bc) ==> (is_sum(ab, c, abc) <==> is_sum(a, bc, abc))
    &&& forall|colour: C, count: usize| #[trigger] has_scaled(colour, count)
    &&& forall|colour: C, count: usize| count > 0 ==> #[trigger] has_average(colour, count)
    &&& forall|sum: C, count: usize, mean: C, back: C|
        #![trigger is_average(sum, count, mean), is_scaled(mean, count, back)]
        count > 0 && is_average(sum, count, mean) && is_scaled(mean, count, back) ==> back == sum
}

} // verus!
