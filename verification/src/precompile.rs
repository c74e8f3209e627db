//! Precompiled contracts: their addresses, base prices and input widths,
//! and the auxiliary data kept for a signature recovery.

use revm_precompile::{Precompile, Precompiles};
use revm_primitives::precompile::PrecompileError;
use vstd::prelude::*;

verus! {

/// A 20-byte account address.
#[derive(Clone, Copy, Debug, PartialEq, Eq)]
pub struct Address(pub [u8; 20]);

/// A 256-bit word, held as its 32 big-endian bytes.
#[derive(Clone, Copy, Debug, PartialEq, Eq)]
pub struct Word(pub [u8; 32]);

/// The address whose first 19 bytes are zero and whose last byte is `last`.
pub open spec fn low_address(last: u8) -> Seq<u8> {
    Seq::new(20, |i: int| if i == 19 { last } else { 0u8 })
}

/// Whether 20 bytes are the address of a precompiled contract: the first 19
/// are zero and the last lies in `1..=9`.
pub open spec fn is_precompile_address(bytes: Seq<u8>) -> bool {
    &&& bytes.len() == 20
    &&& forall|i: int| 0 <= i < 19 ==> bytes[i] == 0
    &&& 1 <= bytes[19] <= 9
}

/// What running a precompiled contract of the Berlin rules with `gas`
/// available comes to: its price and return data, or a failure, which is
/// `true` for running out of gas and `false` for any other.
pub uninterp spec fn precompile_run(address: Seq<u8>, input: Seq<u8>, gas: u64) -> Result<
    (u64, Seq<u8>),
    bool,
>;

/// What running a precompiled contract came to.
#[derive(Debug, PartialEq, Eq)]
pub enum PrecompileOutcome {
    /// The call succeeded, at this price and with this return data.
    Success { gas_cost: u64, return_value: Vec<u8> },
    /// The call ran out of gas.
    OutOfGas,
    /// The call failed for another reason.
    Failed,
}

impl View for PrecompileOutcome {
    type V = Result<(u64, Seq<u8>), bool>;

    open spec fn view(&self) -> Result<(u64, Seq<u8>), bool> {
        match *self {
            PrecompileOutcome::Success { gas_cost, return_value } => Ok((gas_cost, return_value@)),
            PrecompileOutcome::OutOfGas => Err(true),
            PrecompileOutcome::Failed => Err(false),
        }
    }
}

/// `Precompiles::berlin().get(..)` of `revm-precompile`: the set of the
/// Berlin rules holds the contracts at the addresses 1 to 9 and no other, so
/// the lookup finds one exactly at those addresses.
#[verifier::external_body]
fn berlin_holds(address: &Address) -> (b: bool)
    ensures
        b == is_precompile_address(address.0@),
{
    Precompiles::berlin().get(&address.0).is_some()
}

/// The function that `Precompiles::berlin().get(..)` of `revm-precompile`
/// hands out for an address, called on `input` with `gas` available. The
/// result is what the contract computes from these three, which the
/// contract here only names; an address without a contract is left out.
#[verifier::external_body]
fn berlin_run(address: &Address, input: &[u8], gas: u64) -> (out: PrecompileOutcome)
    requires
        is_precompile_address(address.0@),
    ensures
        out@ == precompile_run(address.0@, input@, gas),
{
    let run = match Precompiles::berlin().get(&address.0).unwrap() {
        Precompile::Standard(f) => f,
        Precompile::Custom(f) => f,
    };
    match run(input, gas) {
        Ok((gas_cost, return_value)) => PrecompileOutcome::Success { gas_cost, return_value },
        Err(PrecompileError::OutOfGas) => PrecompileOutcome::OutOfGas,
        Err(_) => PrecompileOutcome::Failed,
    }
}

/// Check if address is a precompiled or not.
pub fn is_precompiled(address: &Address) -> (b: bool)
    ensures
        b == is_precompile_address(address.0@),
{
    berlin_holds(address)
}

/// Return data, gas charged and the out-of-gas flag that a run comes to
/// where `gas` was available: a success is charged its own price, every
/// failure the whole of `gas`, with no return data.
pub open spec fn result_of(run: Result<(u64, Seq<u8>), bool>, gas: u64) -> (Seq<u8>, u64, bool) {
    match run {
        Ok((gas_cost, return_value)) => (return_value, gas_cost, false),
        Err(out_of_gas) => (Seq::empty(), gas, out_of_gas),
    }
}

/// Return data, gas charged and the out-of-gas flag of a precompile call
/// made with `gas` available.
pub fn precompile_result(outcome: PrecompileOutcome, gas: u64) -> (res: (Vec<u8>, u64, bool))
    ensures
        (res.0@, res.1, res.2) == result_of(outcome@, gas),
{
    match outcome {
        PrecompileOutcome::Success { gas_cost, return_value } => (return_value, gas_cost, false),
        PrecompileOutcome::OutOfGas => (Vec::new(), gas, true),
        PrecompileOutcome::Failed => (Vec::new(), gas, false),
    }
}

/// Runs the precompiled contract at `address` on `input` with `gas`
/// available, and gives its return data, the gas charged and whether it ran
/// out of gas.
pub fn execute_precompiled(address: &Address, input: &[u8], gas: u64) -> (res: (Vec<u8>, u64, bool))
    requires
        is_precompile_address(address.0@),
    ensures
        (res.0@, res.1, res.2) == result_of(precompile_run(address.0@, input@, gas), gas),
{
    precompile_result(berlin_run(address, input, gas), gas)
}

/// Addresses of the precompiled contracts.
#[derive(Clone, Copy, Debug, PartialEq, Eq, Structural)]
pub enum PrecompileCalls {
    /// Elliptic Curve Recovery
    Ecrecover,
    /// SHA2-256 hash function
    Sha256,
    /// Ripemd-160 hash function
    Ripemd160,
    /// Identity function
    Identity,
    /// Modular exponentiation
    Modexp,
    /// Point addition
    Bn128Add,
    /// Scalar multiplication
    Bn128Mul,
    /// Bilinear function
    Bn128Pairing,
    /// Compression function
    Blake2F,
}

impl Default for PrecompileCalls {
    fn default() -> (r: Self)
        ensures
            r == PrecompileCalls::Ecrecover,
    {
        PrecompileCalls::Ecrecover
    }
}

impl PrecompileCalls {
    /// The number of the contract, which is the last byte of its address.
    pub open spec fn number(self) -> int {
        match self {
            PrecompileCalls::Ecrecover => 1,
            PrecompileCalls::Sha256 => 2,
            PrecompileCalls::Ripemd160 => 3,
            PrecompileCalls::Identity => 4,
            PrecompileCalls::Modexp => 5,
            PrecompileCalls::Bn128Add => 6,
            PrecompileCalls::Bn128Mul => 7,
            PrecompileCalls::Bn128Pairing => 8,
            PrecompileCalls::Blake2F => 9,
        }
    }

    /// The base price of a call, in gas.
    pub open spec fn base_gas(self) -> int {
        match self {
            PrecompileCalls::Ecrecover => 3000,
            PrecompileCalls::Sha256 => 60,
            PrecompileCalls::Ripemd160 => 600,
            PrecompileCalls::Identity => 15,
            PrecompileCalls::Modexp => 0,
            PrecompileCalls::Bn128Add => 150,
            PrecompileCalls::Bn128Mul => 6000,
            PrecompileCalls::Bn128Pairing => 45000,
            PrecompileCalls::Blake2F => 0,
        }
    }

    fn number_u8(self) -> (n: u8)
        ensures
            n == self.number(),
    {
        match self {
            PrecompileCalls::Ecrecover => 1,
            PrecompileCalls::Sha256 => 2,
            PrecompileCalls::Ripemd160 => 3,
            PrecompileCalls::Identity => 4,
            PrecompileCalls::Modexp => 5,
            PrecompileCalls::Bn128Add => 6,
            PrecompileCalls::Bn128Mul => 7,
            PrecompileCalls::Bn128Pairing => 8,
            PrecompileCalls::Blake2F => 9,
        }
    }

    /// The contract with the given number.
    pub fn from(value: u8) -> (r: Self)
        requires
            1 <= value <= 9,
        ensures
            r.number() == value,
    {
        if value == 1 {
            PrecompileCalls::Ecrecover
        } else if value == 2 {
            PrecompileCalls::Sha256
        } else if value == 3 {
            PrecompileCalls::Ripemd160
        } else if value == 4 {
            PrecompileCalls::Identity
        } else if value == 5 {
            PrecompileCalls::Modexp
        } else if value == 6 {
            PrecompileCalls::Bn128Add
        } else if value == 7 {
            PrecompileCalls::Bn128Mul
        } else if value == 8 {
            PrecompileCalls::Bn128Pairing
        } else {
            PrecompileCalls::Blake2F
        }
    }

    /// Get the base gas cost for the precompile call.
    pub fn base_gas_cost(&self) -> (gas: u64)
        ensures
            gas == self.base_gas(),
    {
        match self {
            PrecompileCalls::Ecrecover => 3000,
            PrecompileCalls::Sha256 => 60,
            PrecompileCalls::Ripemd160 => 600,
            PrecompileCalls::Identity => 15,
            PrecompileCalls::Modexp => 0,
            PrecompileCalls::Bn128Add => 150,
            PrecompileCalls::Bn128Mul => 6000,
            PrecompileCalls::Bn128Pairing => 45000,
            PrecompileCalls::Blake2F => 0,
        }
    }

    /// Get the EVM address for this precompile call.
    pub fn address(&self) -> (a: u64)
        ensures
            a == self.number(),
    {
        self.number_u8() as u64
    }

    /// Maximum length of input bytes considered for the precompile call.
    pub fn input_len(&self) -> (len: Option<usize>)
        ensures
            len == match *self {
                PrecompileCalls::Ecrecover | PrecompileCalls::Bn128Add => Some(128usize),
                PrecompileCalls::Bn128Mul => Some(96usize),
                _ => None,
            },
    {
        match self {
            PrecompileCalls::Ecrecover | PrecompileCalls::Bn128Add => Some(128),
            PrecompileCalls::Bn128Mul => Some(96),
            _ => None,
        }
    }

    /// The 20-byte address of the contract.
    pub fn to_address(self) -> (a: Address)
        ensures
            a.0@ == low_address(self.number() as u8),
            is_precompile_address(a.0@),
    {
        let mut addr: [u8; 20] = [0u8; 20];
        addr[19] = self.number_u8();
        assert(addr@ =~= low_address(self.number() as u8));
        Address(addr)
    }
}

impl From<PrecompileCalls> for Address {
    fn from(value: PrecompileCalls) -> (a: Self) {
        let a = value.to_address();
        proof {
            let n = value.number() as u8;
            assert(a.0@ == low_address(n));
            assert(a.0 =~= address_array(n));
        }
        a
    }
}

impl vstd::std_specs::convert::FromSpecImpl<PrecompileCalls> for Address {
    open spec fn obeys_from_spec() -> bool {
        true
    }

    open spec fn from_spec(value: PrecompileCalls) -> Self {
        Address(address_array(value.number() as u8))
    }
}

/// The array that holds `low_address(last)`.
pub open spec fn address_array(last: u8) -> [u8; 20] {
    choose|a: [u8; 20]| a@ == low_address(last)
}

impl From<PrecompileCalls> for u64 {
    fn from(value: PrecompileCalls) -> (a: Self) {
        value.address()
    }
}

impl vstd::std_specs::convert::FromSpecImpl<PrecompileCalls> for u64 {
    open spec fn obeys_from_spec() -> bool {
        true
    }

    open spec fn from_spec(value: PrecompileCalls) -> Self {
        value.number() as u64
    }
}

impl From<PrecompileCalls> for usize {
    fn from(value: PrecompileCalls) -> (a: Self) {
        value.number_u8() as usize
    }
}

impl vstd::std_specs::convert::FromSpecImpl<PrecompileCalls> for usize {
    open spec fn obeys_from_spec() -> bool {
        true
    }

    open spec fn from_spec(value: PrecompileCalls) -> Self {
        value.number() as usize
    }
}

/// Auxiliary data for Ecrecover
#[derive(Clone, Debug, PartialEq, Eq)]
pub struct EcrecoverAuxData {
    /// Keccak hash of the message being signed.
    pub msg_hash: Word,
    /// v-component of signature.
    pub sig_v: Word,
    /// r-component of signature.
    pub sig_r: Word,
    /// s-component of signature.
    pub sig_s: Word,
    /// Address that was recovered.
    pub recovered_addr: Address,
}

/// The 32 bytes of `bytes` that start at `from`, as a word.
fn word_at(bytes: &Vec<u8>, from: usize) -> (w: Word)
    requires
        from + 32 <= bytes@.len(),
    ensures
        w.0@ == bytes@.subrange(from as int, from + 32),
{
    let mut out: [u8; 32] = [0u8; 32];
    let len: usize = bytes.len();
    let mut i: usize = 0;
    while i < 32
        invariant
            i <= 32,
            from + 32 <= bytes@.len(),
            bytes@.len() == len,
            forall|j: int| 0 <= j < i ==> out@[j] == bytes@[from + j],
        decreases 32 - i,
    {
        out[i] = bytes[from + i];
        i = i + 1;
    }
    assert(out@ =~= bytes@.subrange(from as int, from + 32));
    Word(out)
}

impl Default for EcrecoverAuxData {
    fn default() -> (r: Self)
        ensures
            r.msg_hash.0@ == Seq::new(32, |i: int| 0u8),
            r.sig_v.0@ == Seq::new(32, |i: int| 0u8),
            r.sig_r.0@ == Seq::new(32, |i: int| 0u8),
            r.sig_s.0@ == Seq::new(32, |i: int| 0u8),
            r.recovered_addr.0@ == Seq::new(20, |i: int| 0u8),
    {
        let w: [u8; 32] = [0u8; 32];
        let a: [u8; 20] = [0u8; 20];
        assert(w@ =~= Seq::new(32, |i: int| 0u8));
        assert(a@ =~= Seq::new(20, |i: int| 0u8));
        EcrecoverAuxData {
            msg_hash: Word(w),
            sig_v: Word(w),
            sig_r: Word(w),
            sig_s: Word(w),
            recovered_addr: Address(a),
        }
    }
}

impl EcrecoverAuxData {
    /// Create a new instance of ecrecover auxiliary data: the four words of
    /// the 128-byte input, and the address in the last 20 bytes of the
    /// 32-byte output.
    pub fn new(input: Vec<u8>, output: Vec<u8>) -> (r: Self)
        requires
            input@.len() == 128,
            output@.len() == 32,
            forall|i: int| 0 <= i < 12 ==> output@[i] == 0,
        ensures
            r.msg_hash.0@ == input@.subrange(0, 32),
            r.sig_v.0@ == input@.subrange(32, 64),
            r.sig_r.0@ == input@.subrange(64, 96),
            r.sig_s.0@ == input@.subrange(96, 128),
            r.recovered_addr.0@ == output@.subrange(12, 32),
    {
        let mut addr: [u8; 20] = [0u8; 20];
        let mut i: usize = 0;
        while i < 20
            invariant
                i <= 20,
                output@.len() == 32,
                forall|j: int| 0 <= j < i ==> addr@[j] == output@[12 + j],
            decreases 20 - i,
        {
            addr[i] = output[12 + i];
            i = i + 1;
        }
        assert(addr@ =~= output@.subrange(12, 32));
        EcrecoverAuxData {
            msg_hash: word_at(&input, 0),
            sig_v: word_at(&input, 32),
            sig_r: word_at(&input, 64),
            sig_s: word_at(&input, 96),
            recovered_addr: Address(addr),
        }
    }

    /// Whether `sig_v` is 27 or 28 as a 256-bit number.
    pub open spec fn has_recovery_id(self) -> bool {
        &&& forall|i: int| 0 <= i < 31 ==> self.sig_v.0@[i] == 0
        &&& (self.sig_v.0@[31] == 27 || self.sig_v.0@[31] == 28)
    }

    /// Sanity check and returns recovery ID: `sig_v - 27` where `sig_v` is
    /// 27 or 28, and nothing otherwise.
    pub fn recovery_id(&self) -> (id: Option<u8>)
        ensures
            id.is_some() <==> self.has_recovery_id(),
            id matches Some(v) ==> v == self.sig_v.0@[31] - 27,
    {
        let mut i: usize = 0;
        while i < 31
            invariant
                i <= 31,
                forall|j: int| 0 <= j < i ==> self.sig_v.0@[j] == 0,
            decreases 31 - i,
        {
            if self.sig_v.0[i] != 0 {
                return None;
            }
            i = i + 1;
        }
        let sig_v: u8 = self.sig_v.0[31];
        if sig_v == 27 || sig_v == 28 {
            Some(sig_v - 27)
        } else {
            None
        }
    }
}

/// Auxiliary data attached to an internal state for precompile verification.
#[derive(Clone, Debug, PartialEq, Eq)]
pub enum PrecompileAuxData {
    /// Ecrecover.
    Ecrecover(EcrecoverAuxData),
}

impl Default for PrecompileAuxData {
    fn default() -> (r: Self)
        ensures
            r matches PrecompileAuxData::Ecrecover(d) && d.msg_hash.0@ == Seq::new(
                32,
                |i: int| 0u8,
            ) && d.sig_v.0@ == Seq::new(32, |i: int| 0u8) && d.sig_r.0@ == Seq::new(
                32,
                |i: int| 0u8,
            ) && d.sig_s.0@ == Seq::new(32, |i: int| 0u8) && d.recovered_addr.0@ == Seq::new(
                20,
                |i: int| 0u8,
            ),
    {
        PrecompileAuxData::Ecrecover(EcrecoverAuxData::default())
    }
}

} // verus!
