//! Options that choose a device and an element type.

use candle_core::DType;
use candle_core::Device;
use vstd::prelude::*;

use crate::error::{lift, Result};
use crate::reading::{
    begins_with, digits_of, is_blank, is_digit, lower, lowered, lowered_char, number, parse_number,
    parsed, part, starts_with, trim, trimmed, trimmed_end, trimmed_start,
};
use crate::tensor::layout::dtype_of;
use crate::tensor::make::cpu;
use crate::tensor::value::{device_location, dtype_element, ElementType, Location};
use crate::text::{decimal, decimal_text, digit_char, same_text};

verus! {

/// A device to run on.
#[derive(Debug, Clone, Copy, PartialEq, Eq, Structural)]
pub enum DeviceSpec {
    Cpu,
    Cuda(usize),
    Metal(usize),
}

/// `candle_core::Device::new_cuda`: the device of that number, where there is
/// one.
#[verifier::external_body]
fn open_cuda(index: usize) -> (r: core::result::Result<Device, candle_core::Error>)
    ensures
        r matches Ok(d) ==> device_location(d) == Location::Cuda(index),
{
    Device::new_cuda(index)
}

/// `candle_core::Device::new_metal`: a Metal device, where there is one. Which
/// number the device itself reports is left open.
#[verifier::external_body]
fn open_metal(index: usize) -> (r: core::result::Result<Device, candle_core::Error>)
    ensures
        r matches Ok(d) ==> device_location(d) is Metal,
{
    Device::new_metal(index)
}

/// Text as options are compared: without blanks around it and with small letters.
pub open spec fn plain_option(input: Seq<char>) -> Seq<char> {
    lowered(trimmed(input))
}

impl DeviceSpec {
    /// The text that stands for a device.
    pub open spec fn name(self) -> Seq<char> {
        match self {
            DeviceSpec::Cpu => "cpu"@,
            DeviceSpec::Cuda(index) => "cuda:"@ + decimal(index as nat),
            DeviceSpec::Metal(index) => "metal:"@ + decimal(index as nat),
        }
    }

    /// The device that an option stands for. The library runs on CUDA devices
    /// alone, so an option names no other.
    pub open spec fn named(option: Seq<char>) -> core::result::Result<DeviceSpec, Seq<char>> {
        let rest = option.skip("cuda:"@.len() as int);
        if option == "cuda"@ {
            Ok(DeviceSpec::Cuda(0))
        } else if begins_with(option, "cuda:"@) {
            if rest.len() == 0 {
                Err("missing device index after 'cuda:'"@)
            } else {
                match parsed(rest) {
                    Some(index) => Ok(DeviceSpec::Cuda(index)),
                    None => Err("invalid device index '"@ + rest + "' after 'cuda:'"@),
                }
            }
        } else {
            Err("unsupported device '"@ + option + "', expected cuda or cuda:<index>"@)
        }
    }

    /// Opens the device.
    pub fn resolve(self) -> (r: Result<Device>)
        ensures
            r matches Err(e) ==> e is Backend,
            r matches Ok(d) ==> match self {
                DeviceSpec::Cpu => device_location(d) is Cpu,
                DeviceSpec::Cuda(index) => device_location(d) == Location::Cuda(index),
                DeviceSpec::Metal(index) => device_location(d) is Metal,
            },
            self is Cpu ==> r is Ok,
    {
        match self {
            DeviceSpec::Cpu => Ok(cpu()),
            DeviceSpec::Cuda(index) => lift(open_cuda(index)),
            DeviceSpec::Metal(index) => lift(open_metal(index)),
        }
    }

    /// The text that stands for the device.
    pub fn text(self) -> (r: String)
        ensures
            r@ == self.name(),
    {
        match self {
            DeviceSpec::Cpu => String::from_str("cpu"),
            DeviceSpec::Cuda(index) => {
                let mut out = String::from_str("cuda:");
                out.append(decimal_text(index as u64).as_str());
                out
            },
            DeviceSpec::Metal(index) => {
                let mut out = String::from_str("metal:");
                out.append(decimal_text(index as u64).as_str());
                out
            },
        }
    }

    /// Reads an option.
    pub fn parse(input: &str) -> (r: core::result::Result<Self, String>)
        ensures
            r matches Ok(d) ==> Self::named(plain_option(input@)) == Ok::<DeviceSpec, Seq<char>>(d),
            r matches Err(m) ==> Self::named(plain_option(input@)) == Err::<DeviceSpec, Seq<char>>(
                m@,
            ),
    {
        let trimmed_input = trim(input);
        let option = lower(trimmed_input.as_str());
        if same_text(option.as_str(), "cuda") {
            return Ok(DeviceSpec::Cuda(0));
        }
        if starts_with(option.as_str(), "cuda:") {
            let skip: usize = "cuda:".unicode_len();
            let n: usize = option.as_str().unicode_len();
            let rest = part(option.as_str(), skip, n);
            proof {
                assert(rest@ =~= option@.skip("cuda:"@.len() as int));
            }
            if rest.as_str().unicode_len() == 0 {
                return Err(String::from_str("missing device index after 'cuda:'"));
            }
            return match parse_number(rest.as_str()) {
                Some(index) => Ok(DeviceSpec::Cuda(index)),
                None => {
                    let mut text = String::from_str("invalid device index '");
                    text.append(rest.as_str());
                    text.append("' after 'cuda:'");
                    Err(text)
                },
            };
        }
        let mut text = String::from_str("unsupported device '");
        text.append(option.as_str());
        text.append("', expected cuda or cuda:<index>");
        Err(text)
    }
}

impl Default for DeviceSpec {
    fn default() -> (r: Self)
        ensures
            r is Cpu,
    {
        DeviceSpec::Cpu
    }
}

impl std::str::FromStr for DeviceSpec {
    type Err = String;

    fn from_str(input: &str) -> (r: core::result::Result<Self, String>) {
        DeviceSpec::parse(input)
    }
}

/// An element type to compute in.
#[derive(Debug, Clone, Copy, PartialEq, Eq, Structural)]
pub enum DTypeSpec {
    F32,
    Bf16,
    F16,
}

impl DTypeSpec {
    /// The element type of the option.
    pub open spec fn element(self) -> ElementType {
        match self {
            DTypeSpec::F32 => ElementType::F32,
            DTypeSpec::Bf16 => ElementType::BF16,
            DTypeSpec::F16 => ElementType::F16,
        }
    }

    /// The text that stands for an element type.
    pub open spec fn name(self) -> Seq<char> {
        match self {
            DTypeSpec::F32 => "f32"@,
            DTypeSpec::Bf16 => "bf16"@,
            DTypeSpec::F16 => "f16"@,
        }
    }

    /// The element type that an option stands for.
    pub open spec fn named(option: Seq<char>) -> core::result::Result<DTypeSpec, Seq<char>> {
        if option == "f32"@ || option == "float32"@ {
            Ok(DTypeSpec::F32)
        } else if option == "bf16"@ || option == "bfloat16"@ {
            Ok(DTypeSpec::Bf16)
        } else if option == "f16"@ || option == "float16"@ {
            Ok(DTypeSpec::F16)
        } else {
            Err("unsupported dtype '"@ + option + "', expected f32, bf16, or f16"@)
        }
    }

    /// The tag of the element type.
    pub fn dtype(self) -> (r: DType)
        ensures
            dtype_element(r) == self.element(),
    {
        match self {
            DTypeSpec::F32 => dtype_of(ElementType::F32),
            DTypeSpec::Bf16 => dtype_of(ElementType::BF16),
            DTypeSpec::F16 => dtype_of(ElementType::F16),
        }
    }

    /// The text that stands for the element type.
    pub fn text(self) -> (r: String)
        ensures
            r@ == self.name(),
    {
        match self {
            DTypeSpec::F32 => String::from_str("f32"),
            DTypeSpec::Bf16 => String::from_str("bf16"),
            DTypeSpec::F16 => String::from_str("f16"),
        }
    }

    /// Reads an option.
    pub fn parse(input: &str) -> (r: core::result::Result<Self, String>)
        ensures
            r matches Ok(d) ==> Self::named(plain_option(input@)) == Ok::<DTypeSpec, Seq<char>>(d),
            r matches Err(m) ==> Self::named(plain_option(input@)) == Err::<DTypeSpec, Seq<char>>(
                m@,
            ),
    {
        let trimmed_input = trim(input);
        let option = lower(trimmed_input.as_str());
        let o = option.as_str();
        if same_text(o, "f32") || same_text(o, "float32") {
            Ok(DTypeSpec::F32)
        } else if same_text(o, "bf16") || same_text(o, "bfloat16") {
            Ok(DTypeSpec::Bf16)
        } else if same_text(o, "f16") || same_text(o, "float16") {
            Ok(DTypeSpec::F16)
        } else {
            let mut text = String::from_str("unsupported dtype '");
            text.append(o);
            text.append("', expected f32, bf16, or f16");
            Err(text)
        }
    }
}

impl Default for DTypeSpec {
    fn default() -> (r: Self)
        ensures
            r is F32,
    {
        DTypeSpec::F32
    }
}

impl std::str::FromStr for DTypeSpec {
    type Err = String;

    fn from_str(input: &str) -> (r: core::result::Result<Self, String>) {
        DTypeSpec::parse(input)
    }
}

proof fn lemma_decimal_reads(n: nat)
    ensures
        decimal(n).len() > 0,
        forall|k: int| 0 <= k < decimal(n).len() ==> is_digit(#[trigger] decimal(n)[k]),
        number(decimal(n)) == n,
    decreases n,
{
    if n < 10 {
        let one = seq![digit_char(n)];
        assert(one.drop_last() =~= Seq::<char>::empty());
        assert(number(Seq::<char>::empty()) == 0);
        assert(one.last() as u32 - '0' as u32 == n);
    } else {
        lemma_decimal_reads(n / 10);
        let head = decimal(n / 10);
        let all = head.push(digit_char(n % 10));
        assert(all.drop_last() =~= head);
        assert(all.last() as u32 - '0' as u32 == n % 10);
        assert forall|k: int| 0 <= k < all.len() implies is_digit(#[trigger] all[k]) by {
            if k < head.len() {
                assert(all[k] == head[k]);
            }
        }
    }
}

/// Text without blanks and capitals is its own option.
proof fn lemma_plain(s: Seq<char>)
    requires
        forall|k: int|
            0 <= k < s.len() ==> !is_blank(#[trigger] s[k]) && lowered_char(s[k]) == s[k],
    ensures
        plain_option(s) == s,
{
    assert(trimmed_start(s) == s);
    if s.len() > 0 {
        assert(s.last() == s[s.len() - 1]);
    }
    assert(trimmed_end(s) == s);
    assert(lowered(s) =~= s);
}

/// The text of a CUDA device, read back, gives the device.
pub proof fn device_text_reads_back(index: usize)
    ensures
        DeviceSpec::named(plain_option(DeviceSpec::Cuda(index).name())) == Ok::<
            DeviceSpec,
            Seq<char>,
        >(DeviceSpec::Cuda(index)),
{
    reveal_strlit("cuda:");
    reveal_strlit("cuda");
    let digits = decimal(index as nat);
    let s = "cuda:"@ + digits;
    lemma_decimal_reads(index as nat);
    assert forall|k: int| 0 <= k < s.len() implies !is_blank(#[trigger] s[k]) && lowered_char(s[k])
        == s[k] by {
        if k >= 5 {
            assert(s[k] == digits[k - 5]);
        }
    }
    lemma_plain(s);
    assert(s.skip(5) =~= digits);
    assert(s.take(5) =~= "cuda:"@);
    assert(digits[0] != '+');
    assert(digits_of(digits) == digits);
    assert(s.len() != 4);
}

/// The text of an element type, read back, gives the element type.
pub proof fn dtype_text_reads_back(spec: DTypeSpec)
    ensures
        DTypeSpec::named(plain_option(spec.name())) == Ok::<DTypeSpec, Seq<char>>(spec),
{
    reveal_strlit("f32");
    reveal_strlit("bf16");
    reveal_strlit("f16");
    reveal_strlit("float32");
    reveal_strlit("bfloat16");
    lemma_plain(spec.name());
    assert("f32"@[1] != "f16"@[1]);
}

} // verus!
