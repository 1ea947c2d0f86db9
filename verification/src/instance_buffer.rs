//! The buffers that instances are drawn from.

use crate::gpu::{BIND_SHADER_RESOURCE, USAGE_DYNAMIC};
use crate::text::{decimal, push_decimal};
use vstd::arithmetic::power2::pow2;
use vstd::prelude::*;
use vstd::string::StringExecFns;

verus! {

/// The most bytes that a buffer may take.
pub const MAX_INSTANCE_BUFFER_SIZE: usize = 0x1000_0000;

/// `D3D11_BIND_CONSTANT_BUFFER`.
pub const BIND_CONSTANT_BUFFER: u32 = 4;

/// `D3D11_CPU_ACCESS_WRITE`.
pub const CPU_ACCESS_WRITE: u32 = 0x1_0000;

/// `D3D11_RESOURCE_MISC_BUFFER_STRUCTURED`.
pub const MISC_BUFFER_STRUCTURED: u32 = 0x40;

/// A buffer to create.
#[derive(Clone, Copy, Debug, PartialEq, Eq, Structural)]
pub struct BufferDesc {
    pub byte_width: u32,
    pub usage: u32,
    pub bind_flags: u32,
    pub cpu_access_flags: u32,
    pub misc_flags: u32,
    pub structure_byte_stride: u32,
}

/// The number of elements that a buffer holds.
#[derive(Clone, Copy, Debug, PartialEq, Eq, Structural)]
pub struct InstanceBuffer {
    pub element_size: usize,
    pub buffer_size: usize,
}

/// What an upload asks of a buffer.
#[derive(Clone, Copy, Debug, PartialEq, Eq, Structural)]
pub enum BufferGrowth {
    /// The buffer is large enough.
    Enough,
    /// A buffer for so many elements is needed.
    Grow { buffer_size: usize },
    /// So many bytes are more than a buffer may take.
    TooLarge { required_size: u128 },
}

/// Whether `p` is the least power of two that is not below `n`.
pub open spec fn least_power_of_two(p: int, n: int) -> bool {
    exists|e: nat|
        p == #[trigger] pow2(e) && n <= p && (e == 0 || n > pow2((e - 1) as nat))
}

/// The least power of two that is not below `n`.
fn next_power_of_two(n: usize) -> (result: usize)
    requires
        n <= MAX_INSTANCE_BUFFER_SIZE,
    ensures
        least_power_of_two(result as int, n as int),
        n <= result <= MAX_INSTANCE_BUFFER_SIZE,
{
    let mut power: usize = 1;
    let ghost mut exponent: nat = 0;
    proof {
        vstd::arithmetic::power2::lemma2_to64();
    }
    while power < n
        invariant
            n <= MAX_INSTANCE_BUFFER_SIZE,
            1 <= power <= MAX_INSTANCE_BUFFER_SIZE,
            power == pow2(exponent),
            exponent <= 28,
            pow2(28) == MAX_INSTANCE_BUFFER_SIZE,
            exponent == 0 || n > pow2((exponent - 1) as nat),
        decreases MAX_INSTANCE_BUFFER_SIZE - power,
    {
        proof {
            vstd::arithmetic::power2::lemma_pow2_unfold(exponent + 1);
            if exponent == 28 {
                assert(false);
            }
            if exponent < 27 {
                vstd::arithmetic::power2::lemma_pow2_strictly_increases(exponent + 1, 28);
            }
            assert(pow2(exponent + 1) <= pow2(28));
        }
        power = power * 2;
        proof {
            exponent = exponent + 1;
        }
    }
    power
}

impl InstanceBuffer {
    /// What an upload of so many elements asks of the buffer. A buffer that is
    /// too small grows to the next power of two, but not beyond the limit.
    pub open spec fn growth(self, count: usize, growth: BufferGrowth) -> bool {
        let required = count * self.element_size;
        if count <= self.buffer_size {
            growth == BufferGrowth::Enough
        } else if required > MAX_INSTANCE_BUFFER_SIZE {
            growth == (BufferGrowth::TooLarge { required_size: required as u128 })
        } else {
            let limit = MAX_INSTANCE_BUFFER_SIZE as int / self.element_size as int;
            exists|power: int| #[trigger]
                least_power_of_two(power, count as int) && growth == (BufferGrowth::Grow {
                    buffer_size: (if power < limit {
                        power
                    } else {
                        limit
                    }) as usize,
                })
        }
    }

    /// What an upload of so many elements asks of the buffer.
    pub fn update_buffer(&self, count: usize) -> (result: BufferGrowth)
        requires
            self.element_size > 0,
        ensures
            self.growth(count, result),
    {
        if count <= self.buffer_size {
            return BufferGrowth::Enough;
        }
        let count_wide: u128 = count as u128;
        let element_wide: u128 = self.element_size as u128;
        assert(count_wide * element_wide <= 0xFFFF_FFFF_FFFF_FFFF * 0xFFFF_FFFF_FFFF_FFFF)
            by (nonlinear_arith)
            requires
                count_wide <= 0xFFFF_FFFF_FFFF_FFFF,
                element_wide <= 0xFFFF_FFFF_FFFF_FFFF,
        ;
        assert(count * self.element_size == count_wide * element_wide);
        let required_size: u128 = count_wide * element_wide;
        if required_size > MAX_INSTANCE_BUFFER_SIZE as u128 {
            return BufferGrowth::TooLarge { required_size };
        }
        assert(count <= MAX_INSTANCE_BUFFER_SIZE) by (nonlinear_arith)
            requires
                count * self.element_size <= MAX_INSTANCE_BUFFER_SIZE,
                self.element_size > 0,
        ;
        let power: usize = next_power_of_two(count);
        let limit: usize = MAX_INSTANCE_BUFFER_SIZE / self.element_size;
        let buffer_size: usize = if power < limit {
            power
        } else {
            limit
        };
        assert(least_power_of_two(power as int, count as int));
        BufferGrowth::Grow { buffer_size }
    }

    /// Whether so many instances from `first` on are in the buffer.
    pub fn draw_range(&self, first: u32, count: u32) -> (result: bool)
        ensures
            result == (first + count <= self.buffer_size),
    {
        first as u64 + count as u64 <= self.buffer_size as u64
    }

    /// The buffer to create.
    pub fn create_buffer(&self) -> (result: BufferDesc)
        requires
            self.element_size * self.buffer_size <= u32::MAX,
            self.element_size <= u32::MAX,
        ensures
            result == (BufferDesc {
                byte_width: (self.element_size * self.buffer_size) as u32,
                usage: USAGE_DYNAMIC,
                bind_flags: BIND_SHADER_RESOURCE,
                cpu_access_flags: CPU_ACCESS_WRITE,
                misc_flags: MISC_BUFFER_STRUCTURED,
                structure_byte_stride: self.element_size as u32,
            }),
    {
        BufferDesc {
            byte_width: (self.element_size * self.buffer_size) as u32,
            usage: USAGE_DYNAMIC,
            bind_flags: BIND_SHADER_RESOURCE,
            cpu_access_flags: CPU_ACCESS_WRITE,
            misc_flags: MISC_BUFFER_STRUCTURED,
            structure_byte_stride: self.element_size as u32,
        }
    }
}

/// The buffer to create for constants of the given size, which is a positive
/// multiple of sixteen bytes.
pub fn create_constant_buffer(size: u32) -> (result: BufferDesc)
    requires
        size > 0,
        size % 16 == 0,
    ensures
        result == (BufferDesc {
            byte_width: size,
            usage: USAGE_DYNAMIC,
            bind_flags: BIND_CONSTANT_BUFFER,
            cpu_access_flags: CPU_ACCESS_WRITE,
            misc_flags: 0,
            structure_byte_stride: 0,
        }),
{
    BufferDesc {
        byte_width: size,
        usage: USAGE_DYNAMIC,
        bind_flags: BIND_CONSTANT_BUFFER,
        cpu_access_flags: CPU_ACCESS_WRITE,
        misc_flags: 0,
        structure_byte_stride: 0,
    }
}

/// What is said of an upload that a buffer may not take.
pub fn buffer_too_large(label: &str, required_size: u64) -> (result: String)
    ensures
        result@ == label@ + " buffer needs "@ + decimal(required_size as nat)
            + " bytes, above the maximum of "@ + decimal(MAX_INSTANCE_BUFFER_SIZE as nat),
{
    let mut text = String::from_str(label);
    text.append(" buffer needs ");
    push_decimal(&mut text, required_size);
    text.append(" bytes, above the maximum of ");
    push_decimal(&mut text, MAX_INSTANCE_BUFFER_SIZE as u64);
    text
}

/// What is said of instances that are not in a buffer.
pub fn range_too_large(label: &str) -> (result: String)
    ensures
        result@ == "DirectX instance range exceeds the "@ + label@ + " buffer"@,
{
    let mut text = String::from_str("DirectX instance range exceeds the ");
    text.append(label);
    text.append(" buffer");
    text
}

/// Law: a buffer that grows for some elements holds them all, and takes no more
/// bytes than a buffer may.
pub proof fn lemma_grown_buffer_holds(buffer: InstanceBuffer, count: usize, buffer_size: usize)
    requires
        buffer.element_size > 0,
        buffer.growth(count, BufferGrowth::Grow { buffer_size }),
    ensures
        count <= buffer_size,
        buffer_size * buffer.element_size <= MAX_INSTANCE_BUFFER_SIZE,
        buffer_size > buffer.buffer_size,
{
    let e = buffer.element_size as int;
    let limit = MAX_INSTANCE_BUFFER_SIZE as int / e;
    let power = choose|power: int| #[trigger]
        least_power_of_two(power, count as int) && buffer_size == (if power < limit {
            power
        } else {
            limit
        }) as usize;
    assert(count <= limit) by (nonlinear_arith)
        requires
            count * e <= MAX_INSTANCE_BUFFER_SIZE as int,
            limit == MAX_INSTANCE_BUFFER_SIZE as int / e,
            e > 0,
    ;
    assert(0 <= limit <= MAX_INSTANCE_BUFFER_SIZE && limit * e <= MAX_INSTANCE_BUFFER_SIZE)
        by (nonlinear_arith)
        requires
            limit == MAX_INSTANCE_BUFFER_SIZE as int / e,
            e > 0,
    ;
    assert(buffer_size <= limit);
    assert(buffer_size * e <= limit * e) by (nonlinear_arith)
        requires
            0 <= buffer_size <= limit,
            e > 0,
    ;
}

/// Law: after growing, drawing any of the elements stays within the buffer.
pub proof fn lemma_drawn_range_fits(
    buffer: InstanceBuffer,
    count: usize,
    growth: BufferGrowth,
    first: u32,
    drawn: u32,
)
    requires
        buffer.element_size > 0,
        buffer.growth(count, growth),
        first + drawn <= count,
    ensures
        match growth {
            BufferGrowth::Enough => first + drawn <= buffer.buffer_size,
            BufferGrowth::Grow { buffer_size } => first + drawn <= buffer_size,
            BufferGrowth::TooLarge { required_size } => required_size > MAX_INSTANCE_BUFFER_SIZE,
        },
{
    match growth {
        BufferGrowth::Grow { buffer_size } => lemma_grown_buffer_holds(buffer, count, buffer_size),
        BufferGrowth::TooLarge { required_size } => {
            assert(count * buffer.element_size <= 0xFFFF_FFFF_FFFF_FFFF * 0xFFFF_FFFF_FFFF_FFFF)
                by (nonlinear_arith)
                requires
                    count <= 0xFFFF_FFFF_FFFF_FFFF,
                    buffer.element_size <= 0xFFFF_FFFF_FFFF_FFFF,
            ;
            assert(count * buffer.element_size >= 0) by (nonlinear_arith);
        },
        BufferGrowth::Enough => {},
    }
}

/// Law: a buffer is enough exactly if it holds the elements, and too many are asked
/// for exactly if they take more than 256 MiB. One that grows, grows to less than twice
/// what is needed, and to a power of two unless as many elements as fit are fewer.
pub proof fn lemma_buffers_grow_by_need(
    buffer: InstanceBuffer,
    count: usize,
    growth: BufferGrowth,
)
    requires
        buffer.element_size > 0,
        buffer.growth(count, growth),
    ensures
        growth is Enough <==> count <= buffer.buffer_size,
        growth is TooLarge <==> count > buffer.buffer_size && count * buffer.element_size
            > 256 * 1024 * 1024,
        growth is TooLarge ==> growth->required_size == count * buffer.element_size,
        growth is Grow ==> {
            &&& growth->buffer_size < 2 * count
            &&& (exists|e: nat| growth->buffer_size == #[trigger] pow2(e)) || (growth->buffer_size
                + 1) * buffer.element_size > 256 * 1024 * 1024
        },
{
    let e = buffer.element_size as int;
    let n = count as int;
    assert(0 <= n * e <= 0xFFFF_FFFF_FFFF_FFFF * 0xFFFF_FFFF_FFFF_FFFF) by (nonlinear_arith)
        requires
            0 <= n <= 0xFFFF_FFFF_FFFF_FFFF,
            0 <= e <= 0xFFFF_FFFF_FFFF_FFFF,
    ;
    if growth is Grow {
        let limit = MAX_INSTANCE_BUFFER_SIZE as int / e;
        let power = choose|power: int| #[trigger]
            least_power_of_two(power, n) && growth == (BufferGrowth::Grow {
                buffer_size: (if power < limit {
                    power
                } else {
                    limit
                }) as usize,
            });
        let exponent = choose|x: nat|
            power == #[trigger] pow2(x) && n <= power && (x == 0 || n > pow2((x - 1) as nat));
        vstd::arithmetic::power2::lemma2_to64();
        if exponent > 0 {
            vstd::arithmetic::power2::lemma_pow2_unfold(exponent);
        }
        assert(power < 2 * n);
        assert(0 <= limit <= MAX_INSTANCE_BUFFER_SIZE && (limit + 1) * e > MAX_INSTANCE_BUFFER_SIZE)
            by (nonlinear_arith)
            requires
                limit == MAX_INSTANCE_BUFFER_SIZE as int / e,
                e > 0,
        ;
    }
}

} // verus!
