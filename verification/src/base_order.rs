//! The order of the base field is prime.
//!
//! The proofs are certificates for Pocklington's criterion. Powers are computed bit by bit: each
//! step gives the residues that the squarings run through, and the prover recomputes them.

use vstd::arithmetic::power::*;
use vstd::prelude::*;

use crate::primes;

verus! {

/// 2 to the power (n - 1) / (q1 q2), for `prime_5`.
proof fn prime_5_cofactor()
    ensures
        pow(2, 1) % 5 == 2,
{
    primes::lemma_first_powers(2, 5);
    let e: nat = 1;
    assert(e == 1);
}

/// The residue of `prime_5_cofactor` to the power q2.
proof fn prime_5_second()
    ensures
        pow(2, 2) % 5 == 4,
{
    primes::lemma_first_powers(2, 5);
    let e: nat = 1;
    primes::lemma_bit_step(2, 5, e, 0, 2);
    let e: nat = 2 * e + 0;
    assert(e == 2);
}

/// The residue of `prime_5_second` to the power q1.
proof fn prime_5_whole()
    ensures
        pow(4, 2) % 5 == 1,
{
    primes::lemma_first_powers(4, 5);
    let e: nat = 1;
    primes::lemma_bit_step(4, 5, e, 0, 4);
    let e: nat = 2 * e + 0;
    assert(e == 2);
}

pub(crate) proof fn prime_5()
    ensures
        primes::is_prime(5),
{
    assert(primes::is_prime(2));
    prime_5_cofactor();
    prime_5_second();
    prime_5_whole();
    primes::lemma_compose_residues(2, 5, 1, 2, 2, 4);
    primes::lemma_compose_residues(2, 5, 2, 2, 4, 1);
    primes::lemma_prime_by_two(
        5,
        2,
        2,
        2,
        1,
        2,
        2,
        4,
        4,
        2,
        2,
    );
}

/// 2 to the power (n - 1) / q, for `prime_3`.
proof fn prime_3_cofactor()
    ensures
        pow(2, 1) % 3 == 2,
{
    primes::lemma_first_powers(2, 3);
    let e: nat = 1;
    assert(e == 1);
}

/// The residue of `prime_3_cofactor` to the power q.
proof fn prime_3_factor()
    ensures
        pow(2, 2) % 3 == 1,
{
    primes::lemma_first_powers(2, 3);
    let e: nat = 1;
    primes::lemma_bit_step(2, 3, e, 0, 2);
    let e: nat = 2 * e + 0;
    assert(e == 2);
}

pub(crate) proof fn prime_3()
    ensures
        primes::is_prime(3),
{
    assert(primes::is_prime(2));
    prime_3_cofactor();
    prime_3_factor();
    primes::lemma_compose_residues(2, 3, 1, 2, 2, 1);
    primes::lemma_prime_by_one(3, 2, 2, 1, 2, 1);
}

/// 2 to the power (n - 1) / (q1 q2), for `prime_19`.
proof fn prime_19_cofactor()
    ensures
        pow(2, 2) % 19 == 4,
{
    primes::lemma_first_powers(2, 19);
    let e: nat = 1;
    primes::lemma_bit_step(2, 19, e, 0, 2);
    let e: nat = 2 * e + 0;
    assert(e == 2);
}

/// The residue of `prime_19_cofactor` to the power q2.
proof fn prime_19_second()
    ensures
        pow(4, 3) % 19 == 7,
{
    primes::lemma_first_powers(4, 19);
    let e: nat = 1;
    primes::lemma_bit_step(4, 19, e, 1, 4);
    let e: nat = 2 * e + 1;
    assert(e == 3);
}

/// The residue of `prime_19_second` to the power q1.
proof fn prime_19_whole()
    ensures
        pow(7, 3) % 19 == 1,
{
    primes::lemma_first_powers(7, 19);
    let e: nat = 1;
    primes::lemma_bit_step(7, 19, e, 1, 7);
    let e: nat = 2 * e + 1;
    assert(e == 3);
}

pub(crate) proof fn prime_19()
    ensures
        primes::is_prime(19),
{
    prime_3();
    prime_19_cofactor();
    prime_19_second();
    prime_19_whole();
    primes::lemma_compose_residues(2, 19, 2, 3, 4, 7);
    primes::lemma_compose_residues(2, 19, 6, 3, 7, 1);
    primes::lemma_prime_by_two(
        19,
        2,
        3,
        3,
        2,
        6,
        6,
        7,
        7,
        16,
        16,
    );
}

/// 2 to the power (n - 1) / q, for `prime_11`.
proof fn prime_11_cofactor()
    ensures
        pow(2, 2) % 11 == 4,
{
    primes::lemma_first_powers(2, 11);
    let e: nat = 1;
    primes::lemma_bit_step(2, 11, e, 0, 2);
    let e: nat = 2 * e + 0;
    assert(e == 2);
}

/// The residue of `prime_11_cofactor` to the power q.
proof fn prime_11_factor()
    ensures
        pow(4, 5) % 11 == 1,
{
    primes::lemma_first_powers(4, 11);
    let e: nat = 1;
    primes::lemma_bit_step(4, 11, e, 0, 4);
    let e: nat = 2 * e + 0;
    primes::lemma_bit_step(4, 11, e, 1, 5);
    let e: nat = 2 * e + 1;
    assert(e == 5);
}

pub(crate) proof fn prime_11()
    ensures
        primes::is_prime(11),
{
    prime_5();
    prime_11_cofactor();
    prime_11_factor();
    primes::lemma_compose_residues(2, 11, 2, 5, 4, 1);
    primes::lemma_prime_by_one(11, 2, 5, 2, 4, 4);
}

/// 2 to the power (n - 1) / q, for `prime_23`.
proof fn prime_23_cofactor()
    ensures
        pow(2, 2) % 23 == 4,
{
    primes::lemma_first_powers(2, 23);
    let e: nat = 1;
    primes::lemma_bit_step(2, 23, e, 0, 2);
    let e: nat = 2 * e + 0;
    assert(e == 2);
}

/// The residue of `prime_23_cofactor` to the power q.
proof fn prime_23_factor()
    ensures
        pow(4, 11) % 23 == 1,
{
    primes::lemma_first_powers(4, 23);
    let e: nat = 1;
    primes::lemma_bit_step(4, 23, e, 0, 4);
    let e: nat = 2 * e + 0;
    primes::lemma_bit_step(4, 23, e, 1, 16);
    let e: nat = 2 * e + 1;
    primes::lemma_bit_step(4, 23, e, 1, 12);
    let e: nat = 2 * e + 1;
    assert(e == 11);
}

pub(crate) proof fn prime_23()
    ensures
        primes::is_prime(23),
{
    prime_11();
    prime_23_cofactor();
    prime_23_factor();
    primes::lemma_compose_residues(2, 23, 2, 11, 4, 1);
    primes::lemma_prime_by_one(23, 2, 11, 2, 4, 8);
}

/// 2 to the power (n - 1) / q, for `prime_277`.
proof fn prime_277_cofactor()
    ensures
        pow(2, 12) % 277 == 218,
{
    primes::lemma_first_powers(2, 277);
    let e: nat = 1;
    primes::lemma_bit_step(2, 277, e, 1, 2);
    let e: nat = 2 * e + 1;
    primes::lemma_bit_step(2, 277, e, 0, 8);
    let e: nat = 2 * e + 0;
    primes::lemma_bit_step(2, 277, e, 0, 64);
    let e: nat = 2 * e + 0;
    assert(e == 12);
}

/// The residue of `prime_277_cofactor` to the power q.
proof fn prime_277_factor()
    ensures
        pow(218, 23) % 277 == 1,
{
    primes::lemma_first_powers(218, 277);
    let e: nat = 1;
    primes::lemma_four_bits(218, 277, e, (0, 1, 1, 1), 218, 157, 236, 264, 1);
    let e: nat = 16 * e + 7;
    assert(e == 23);
}

pub(crate) proof fn prime_277()
    ensures
        primes::is_prime(277),
{
    prime_23();
    prime_277_cofactor();
    prime_277_factor();
    primes::lemma_compose_residues(2, 277, 12, 23, 218, 1);
    primes::lemma_prime_by_one(277, 2, 23, 12, 218, 60);
}

/// 5 to the power (n - 1) / (q1 q2), for `prime_457`.
proof fn prime_457_cofactor()
    ensures
        pow(5, 12) % 457 == 257,
{
    primes::lemma_first_powers(5, 457);
    let e: nat = 1;
    primes::lemma_bit_step(5, 457, e, 1, 5);
    let e: nat = 2 * e + 1;
    primes::lemma_bit_step(5, 457, e, 0, 125);
    let e: nat = 2 * e + 0;
    primes::lemma_bit_step(5, 457, e, 0, 87);
    let e: nat = 2 * e + 0;
    assert(e == 12);
}

/// The residue of `prime_457_cofactor` to the power q2.
proof fn prime_457_second()
    ensures
        pow(257, 19) % 457 == 456,
{
    primes::lemma_first_powers(257, 457);
    let e: nat = 1;
    primes::lemma_four_bits(257, 457, e, (0, 0, 1, 1), 257, 241, 42, 4, 456);
    let e: nat = 16 * e + 3;
    assert(e == 19);
}

/// The residue of `prime_457_cofactor` to the power q1.
proof fn prime_457_first()
    ensures
        pow(257, 2) % 457 == 241,
{
    primes::lemma_first_powers(257, 457);
    let e: nat = 1;
    primes::lemma_bit_step(257, 457, e, 0, 257);
    let e: nat = 2 * e + 0;
    assert(e == 2);
}

/// The residue of `prime_457_second` to the power q1.
proof fn prime_457_whole()
    ensures
        pow(456, 2) % 457 == 1,
{
    primes::lemma_first_powers(456, 457);
    let e: nat = 1;
    primes::lemma_bit_step(456, 457, e, 0, 456);
    let e: nat = 2 * e + 0;
    assert(e == 2);
}

pub(crate) proof fn prime_457()
    ensures
        primes::is_prime(457),
{
    assert(primes::is_prime(2));
    prime_19();
    prime_457_cofactor();
    prime_457_second();
    prime_457_first();
    prime_457_whole();
    primes::lemma_compose_residues(5, 457, 12, 19, 257, 456);
    primes::lemma_compose_residues(5, 457, 12, 2, 257, 241);
    primes::lemma_compose_residues(5, 457, 228, 2, 456, 1);
    primes::lemma_prime_by_two(
        457,
        5,
        2,
        19,
        12,
        228,
        24,
        456,
        241,
        228,
        318,
    );
}

/// 2 to the power (n - 1) / q, for `prime_12743`.
proof fn prime_12743_cofactor()
    ensures
        pow(2, 46) % 12743 == 5870,
{
    primes::lemma_first_powers(2, 12743);
    let e: nat = 1;
    primes::lemma_bit_step(2, 12743, e, 0, 2);
    let e: nat = 2 * e + 0;
    primes::lemma_four_bits(2, 12743, e, (1, 1, 1, 0), 4, 32, 2048, 3714, 5870);
    let e: nat = 16 * e + 14;
    assert(e == 46);
}

/// The residue of `prime_12743_cofactor` to the power q.
proof fn prime_12743_factor()
    ensures
        pow(5870, 277) % 12743 == 1,
{
    primes::lemma_first_powers(5870, 12743);
    let e: nat = 1;
    primes::lemma_four_bits(5870, 12743, e, (0, 0, 0, 1), 5870, 12571, 4098, 11073, 101);
    let e: nat = 16 * e + 1;
    primes::lemma_four_bits(5870, 12743, e, (0, 1, 0, 1), 101, 10201, 8483, 1568, 1);
    let e: nat = 16 * e + 5;
    assert(e == 277);
}

pub(crate) proof fn prime_12743()
    ensures
        primes::is_prime(12743),
{
    prime_277();
    prime_12743_cofactor();
    prime_12743_factor();
    primes::lemma_compose_residues(2, 12743, 46, 277, 5870, 1);
    primes::lemma_prime_by_one(12743, 2, 277, 46, 5870, 10131);
}

/// 2 to the power (n - 1) / q, for `prime_53927`.
proof fn prime_53927_cofactor()
    ensures
        pow(2, 118) % 53927 == 29383,
{
    primes::lemma_first_powers(2, 53927);
    let e: nat = 1;
    primes::lemma_bit_step(2, 53927, e, 1, 2);
    let e: nat = 2 * e + 1;
    primes::lemma_bit_step(2, 53927, e, 1, 8);
    let e: nat = 2 * e + 1;
    primes::lemma_four_bits(2, 53927, e, (0, 1, 1, 0), 128, 16384, 27627, 44596, 29383);
    let e: nat = 16 * e + 6;
    assert(e == 118);
}

/// The residue of `prime_53927_cofactor` to the power q.
proof fn prime_53927_factor()
    ensures
        pow(29383, 457) % 53927 == 1,
{
    primes::lemma_first_powers(29383, 53927);
    let e: nat = 1;
    primes::lemma_four_bits(29383, 53927, e, (1, 1, 0, 0), 29383, 41559, 14332, 52208, 42903);
    let e: nat = 16 * e + 12;
    primes::lemma_four_bits(29383, 53927, e, (1, 0, 0, 1), 42903, 20030, 37947, 16055, 1);
    let e: nat = 16 * e + 9;
    assert(e == 457);
}

pub(crate) proof fn prime_53927()
    ensures
        primes::is_prime(53927),
{
    prime_457();
    prime_53927_cofactor();
    prime_53927_factor();
    primes::lemma_compose_residues(2, 53927, 118, 457, 29383, 1);
    primes::lemma_prime_by_one(53927, 2, 457, 118, 29383, 19923);
}

/// 2 to the power (n - 1) / q, for `prime_5301089`.
proof fn prime_5301089_cofactor()
    ensures
        pow(2, 416) % 5301089 == 3173577,
{
    primes::lemma_first_powers(2, 5301089);
    let e: nat = 1;
    primes::lemma_four_bits(2, 5301089, e, (1, 0, 1, 0), 2, 8, 64, 8192, 3495796);
    let e: nat = 16 * e + 10;
    primes::lemma_four_bits(2, 5301089, e, (0, 0, 0, 0), 3495796, 5105183, 4577565, 4439826, 3173577);
    let e: nat = 16 * e + 0;
    assert(e == 416);
}

/// The residue of `prime_5301089_cofactor` to the power q.
proof fn prime_5301089_factor()
    ensures
        pow(3173577, 12743) % 5301089 == 1,
{
    primes::lemma_first_powers(3173577, 5301089);
    let e: nat = 1;
    primes::lemma_bit_step(3173577, 5301089, e, 1, 3173577);
    let e: nat = 2 * e + 1;
    primes::lemma_four_bits(3173577, 5301089, e, (0, 0, 0, 1), 2221877, 2852277, 3517120, 4805277, 3510571);
    let e: nat = 16 * e + 1;
    primes::lemma_four_bits(3173577, 5301089, e, (1, 1, 0, 0), 3510571, 339149, 883365, 2820247, 2097786);
    let e: nat = 16 * e + 12;
    primes::lemma_four_bits(3173577, 5301089, e, (0, 1, 1, 1), 2097786, 1767357, 4787593, 5158428, 1);
    let e: nat = 16 * e + 7;
    assert(e == 12743);
}

pub(crate) proof fn prime_5301089()
    ensures
        primes::is_prime(5301089),
{
    prime_12743();
    prime_5301089_cofactor();
    prime_5301089_factor();
    primes::lemma_compose_residues(2, 5301089, 416, 12743, 3173577, 1);
    primes::lemma_prime_by_one(5301089, 2, 12743, 416, 3173577, 4381147);
}

/// 2 to the power (n - 1) / q, for `prime_22433633`.
proof fn prime_22433633_cofactor()
    ensures
        pow(2, 416) % 22433633 == 20179732,
{
    primes::lemma_first_powers(2, 22433633);
    let e: nat = 1;
    primes::lemma_four_bits(2, 22433633, e, (1, 0, 1, 0), 2, 8, 64, 8192, 22241598);
    let e: nat = 16 * e + 10;
    primes::lemma_four_bits(2, 22433633, e, (0, 0, 0, 0), 22241598, 18982206, 21912430, 3705212, 20179732);
    let e: nat = 16 * e + 0;
    assert(e == 416);
}

/// The residue of `prime_22433633_cofactor` to the power q.
proof fn prime_22433633_factor()
    ensures
        pow(20179732, 53927) % 22433633 == 1,
{
    primes::lemma_first_powers(20179732, 22433633);
    let e: nat = 1;
    primes::lemma_bit_step(20179732, 22433633, e, 1, 20179732);
    let e: nat = 2 * e + 1;
    primes::lemma_bit_step(20179732, 22433633, e, 0, 21654129);
    let e: nat = 2 * e + 0;
    primes::lemma_bit_step(20179732, 22433633, e, 1, 11536211);
    let e: nat = 2 * e + 1;
    primes::lemma_four_bits(20179732, 22433633, e, (0, 0, 1, 0), 2118727, 11703596, 4641466, 21675831, 7733670);
    let e: nat = 16 * e + 2;
    primes::lemma_four_bits(20179732, 22433633, e, (1, 0, 1, 0), 7733670, 1950693, 10350789, 2257412, 19467262);
    let e: nat = 16 * e + 10;
    primes::lemma_four_bits(20179732, 22433633, e, (0, 1, 1, 1), 19467262, 11135354, 316304, 16258428, 1);
    let e: nat = 16 * e + 7;
    assert(e == 53927);
}

pub(crate) proof fn prime_22433633()
    ensures
        primes::is_prime(22433633),
{
    prime_53927();
    prime_22433633_cofactor();
    prime_22433633_factor();
    primes::lemma_compose_residues(2, 22433633, 416, 53927, 20179732, 1);
    primes::lemma_prime_by_one(22433633, 2, 53927, 416, 20179732, 20440327);
}

/// 2 to the power (n - 1) / q, for `prime_494527005853`.
proof fn prime_494527005853_cofactor()
    ensures
        pow(2, 22044) % 494527005853int == 459948926767int,
{
    primes::lemma_first_powers(2, 494527005853int);
    let e: nat = 1;
    primes::lemma_bit_step(2, 494527005853int, e, 0, 2);
    let e: nat = 2 * e + 0;
    primes::lemma_bit_step(2, 494527005853int, e, 1, 4);
    let e: nat = 2 * e + 1;
    primes::lemma_four_bits(2, 494527005853int, e, (0, 1, 1, 0), 32, 1024, 2097152, 389133922707int, 202257026746int);
    let e: nat = 16 * e + 6;
    primes::lemma_four_bits(2, 494527005853int, e, (0, 0, 0, 1), 202257026746int, 208000780907int, 401777298329int, 401681162745int, 483705300213int);
    let e: nat = 16 * e + 1;
    primes::lemma_four_bits(2, 494527005853int, e, (1, 1, 0, 0), 483705300213int, 153319938729int, 6966904405int, 103190267592int, 459948926767int);
    let e: nat = 16 * e + 12;
    assert(e == 22044);
}

/// The residue of `prime_494527005853_cofactor` to the power q.
proof fn prime_494527005853_factor()
    ensures
        pow(459948926767int, 22433633) % 494527005853int == 1,
{
    primes::lemma_first_powers(459948926767int, 494527005853int);
    let e: nat = 1;
    primes::lemma_four_bits(459948926767int, 494527005853int, e, (0, 1, 0, 1), 459948926767int, 167766374379int, 399622799535int, 154592917755int, 196118780747int);
    let e: nat = 16 * e + 5;
    primes::lemma_four_bits(459948926767int, 494527005853int, e, (0, 1, 1, 0), 196118780747int, 127636910897int, 241718578951int, 3745011359int, 277859113166int);
    let e: nat = 16 * e + 6;
    primes::lemma_four_bits(459948926767int, 494527005853int, e, (0, 1, 0, 0), 277859113166int, 163794637490int, 231935792628int, 289809020692int, 250112515477int);
    let e: nat = 16 * e + 4;
    primes::lemma_four_bits(459948926767int, 494527005853int, e, (1, 1, 1, 1), 250112515477int, 352106993934int, 41752083596int, 258808574095int, 270606142169int);
    let e: nat = 16 * e + 15;
    primes::lemma_four_bits(459948926767int, 494527005853int, e, (0, 1, 1, 0), 270606142169int, 199700877190int, 162849351802int, 459669084739int, 389959860284int);
    let e: nat = 16 * e + 6;
    primes::lemma_four_bits(459948926767int, 494527005853int, e, (0, 0, 0, 1), 389959860284int, 60326987219int, 139687468462int, 374160392952int, 1);
    let e: nat = 16 * e + 1;
    assert(e == 22433633);
}

pub(crate) proof fn prime_494527005853()
    ensures
        primes::is_prime(494527005853nat),
{
    prime_22433633();
    prime_494527005853_cofactor();
    prime_494527005853_factor();
    primes::lemma_compose_residues(2, 494527005853int, 22044, 22433633, 459948926767int, 1);
    primes::lemma_prime_by_one(494527005853nat, 2, 22433633, 22044, 459948926767int, 201394419378int);
}

/// 2 to the power (n - 1) / (q1 q2), for `prime_5187222954756607`.
proof fn prime_5187222954756607_cofactor()
    ensures
        pow(2, 51501066) % 5187222954756607int == 4032975660280746int,
{
    primes::lemma_first_powers(2, 5187222954756607int);
    let e: nat = 1;
    primes::lemma_bit_step(2, 5187222954756607int, e, 1, 2);
    let e: nat = 2 * e + 1;
    primes::lemma_four_bits(2, 5187222954756607int, e, (0, 0, 0, 1), 8, 64, 4096, 16777216, 562949953421312int);
    let e: nat = 16 * e + 1;
    primes::lemma_four_bits(2, 5187222954756607int, e, (0, 0, 0, 1), 562949953421312int, 4495372429719954int, 723337565086954int, 3974210044492155int, 3530944059058241int);
    let e: nat = 16 * e + 1;
    primes::lemma_four_bits(2, 5187222954756607int, e, (1, 1, 0, 1), 3530944059058241int, 915770480700307int, 4456093688635386int, 4427958085493371int, 3651020255203697int);
    let e: nat = 16 * e + 13;
    primes::lemma_four_bits(2, 5187222954756607int, e, (1, 0, 0, 0), 3651020255203697int, 2149504744304782int, 2035458359825126int, 4979406002611786int, 1942663032210214int);
    let e: nat = 16 * e + 8;
    primes::lemma_four_bits(2, 5187222954756607int, e, (0, 0, 0, 0), 1942663032210214int, 4442257049151321int, 1600567410086278int, 3869730291660559int, 4912625372546195int);
    let e: nat = 16 * e + 0;
    primes::lemma_four_bits(2, 5187222954756607int, e, (1, 0, 1, 0), 4912625372546195int, 3679928391098790int, 1423559967757610int, 2482595454723775int, 4032975660280746int);
    let e: nat = 16 * e + 10;
    assert(e == 51501066);
}

/// The residue of `prime_5187222954756607_cofactor` to the power q2.
proof fn prime_5187222954756607_second()
    ensures
        pow(4032975660280746int, 5301089) % 5187222954756607int == 1719701792132226int,
{
    primes::lemma_first_powers(4032975660280746int, 5187222954756607int);
    let e: nat = 1;
    primes::lemma_bit_step(4032975660280746int, 5187222954756607int, e, 0, 4032975660280746int);
    let e: nat = 2 * e + 0;
    primes::lemma_bit_step(4032975660280746int, 5187222954756607int, e, 1, 1501054505791266int);
    let e: nat = 2 * e + 1;
    primes::lemma_four_bits(4032975660280746int, 5187222954756607int, e, (0, 0, 0, 0), 1672888203369497int, 3946155643365702int, 5144725946912482int, 2259361519696165int, 152633615097236int);
    let e: nat = 16 * e + 0;
    primes::lemma_four_bits(4032975660280746int, 5187222954756607int, e, (1, 1, 1, 0), 152633615097236int, 2583332666780382int, 1598351201309016int, 1504712056672487int, 3234433563110795int);
    let e: nat = 16 * e + 14;
    primes::lemma_four_bits(4032975660280746int, 5187222954756607int, e, (0, 0, 1, 1), 3234433563110795int, 3922903160555033int, 2413858913807315int, 5008975649381190int, 1489466672565973int);
    let e: nat = 16 * e + 3;
    primes::lemma_four_bits(4032975660280746int, 5187222954756607int, e, (0, 1, 1, 0), 1489466672565973int, 4390902429991785int, 777984827208533int, 3013963930924008int, 5101099044261982int);
    let e: nat = 16 * e + 6;
    primes::lemma_four_bits(4032975660280746int, 5187222954756607int, e, (0, 0, 0, 1), 5101099044261982int, 727374699832292int, 4741917383519225int, 1678352479346169int, 1719701792132226int);
    let e: nat = 16 * e + 1;
    assert(e == 5301089);
}

/// The residue of `prime_5187222954756607_cofactor` to the power q1.
proof fn prime_5187222954756607_first()
    ensures
        pow(4032975660280746int, 19) % 5187222954756607int == 4400340746272603int,
{
    primes::lemma_first_powers(4032975660280746int, 5187222954756607int);
    let e: nat = 1;
    primes::lemma_four_bits(4032975660280746int, 5187222954756607int, e, (0, 0, 1, 1), 4032975660280746int, 1501054505791266int, 2087454197345894int, 3722895493493441int, 4400340746272603int);
    let e: nat = 16 * e + 3;
    assert(e == 19);
}

/// The residue of `prime_5187222954756607_second` to the power q1.
proof fn prime_5187222954756607_whole()
    ensures
        pow(1719701792132226int, 19) % 5187222954756607int == 1,
{
    primes::lemma_first_powers(1719701792132226int, 5187222954756607int);
    let e: nat = 1;
    primes::lemma_four_bits(1719701792132226int, 5187222954756607int, e, (0, 0, 1, 1), 1719701792132226int, 1974207766336307int, 4688806449456510int, 4429386662326700int, 1);
    let e: nat = 16 * e + 3;
    assert(e == 19);
}

pub(crate) proof fn prime_5187222954756607()
    ensures
        primes::is_prime(5187222954756607nat),
{
    prime_19();
    prime_5301089();
    prime_5187222954756607_cofactor();
    prime_5187222954756607_second();
    prime_5187222954756607_first();
    prime_5187222954756607_whole();
    primes::lemma_compose_residues(2, 5187222954756607int, 51501066, 5301089, 4032975660280746int, 1719701792132226int);
    primes::lemma_compose_residues(2, 5187222954756607int, 51501066, 19, 4032975660280746int, 4400340746272603int);
    primes::lemma_compose_residues(2, 5187222954756607int, 273011734460874nat, 19, 1719701792132226int, 1);
    primes::lemma_prime_by_two(
        5187222954756607nat,
        2,
        19,
        5301089,
        51501066,
        273011734460874nat,
        978520254,
        1719701792132226int,
        4400340746272603int,
        453040003097671int,
        953770400133523int,
    );
}

/// Eight bits of an exponent at once, for `prime_7880826209898991662826602799_cofactor`.
proof fn prime_7880826209898991662826602799_cofactor_octet(
    e: nat,
    b: (nat, nat, nat, nat),
    c: (nat, nat, nat, nat),
    x0: int,
    x1: int,
    x2: int,
    x3: int,
    x4: int,
    x5: int,
    x6: int,
    x7: int,
    x8: int,
)
    requires
        b.0 <= 1,
        b.1 <= 1,
        b.2 <= 1,
        b.3 <= 1,
        c.0 <= 1,
        c.1 <= 1,
        c.2 <= 1,
        c.3 <= 1,
        pow(2, e) % 7880826209898991662826602799int == x0,
        primes::bit_step(x0, b.0, 2, 7880826209898991662826602799int) == x1,
        primes::bit_step(x1, b.1, 2, 7880826209898991662826602799int) == x2,
        primes::bit_step(x2, b.2, 2, 7880826209898991662826602799int) == x3,
        primes::bit_step(x3, b.3, 2, 7880826209898991662826602799int) == x4,
        primes::bit_step(x4, c.0, 2, 7880826209898991662826602799int) == x5,
        primes::bit_step(x5, c.1, 2, 7880826209898991662826602799int) == x6,
        primes::bit_step(x6, c.2, 2, 7880826209898991662826602799int) == x7,
        primes::bit_step(x7, c.3, 2, 7880826209898991662826602799int) == x8,
    ensures
        pow(
            2,
            256 * e + 128 * b.0 + 64 * b.1 + 32 * b.2 + 16 * b.3 + 8 * c.0 + 4 * c.1 + 2 * c.2 + c.3,
        ) % 7880826209898991662826602799int == x8,
{
    primes::lemma_four_bits(2, 7880826209898991662826602799int, e, b, x0, x1, x2, x3, x4);
    let f = 16 * e + 8 * b.0 + 4 * b.1 + 2 * b.2 + b.3;
    primes::lemma_four_bits(2, 7880826209898991662826602799int, f, c, x4, x5, x6, x7, x8);
}

/// 2 to the power (n - 1) / q, for `prime_7880826209898991662826602799`.
proof fn prime_7880826209898991662826602799_cofactor()
    ensures
        pow(2, 1519276552914nat) % 7880826209898991662826602799int == 2107688518115451092347028952int,
{
    primes::lemma_first_powers(2, 7880826209898991662826602799int);
    let e: nat = 1;
    prime_7880826209898991662826602799_cofactor_octet(
        e,
        (0, 1, 1, 0),
        (0, 0, 0, 1),
        2,
        4,
        32,
        2048,
        4194304,
        17592186044416int,
        309485009821345068724781056int,
        7744760865317453621143973909int,
        4335564955498852791329727737int,
    );
    let e: nat = 256 * e + 97;
    prime_7880826209898991662826602799_cofactor_octet(
        e,
        (1, 0, 1, 1),
        (1, 0, 1, 1),
        4335564955498852791329727737int,
        5883631689703918581372370251int,
        3056039524789069732742140530int,
        2958419831308941699857093210int,
        742525147924037067782442184int,
        5439801748695063239344397589int,
        7874308939564137642688374804int,
        4264301658479835925444898617int,
        4592279618814285177780365359int,
    );
    let e: nat = 256 * e + 187;
    prime_7880826209898991662826602799_cofactor_octet(
        e,
        (1, 1, 1, 1),
        (0, 0, 0, 0),
        4592279618814285177780365359int,
        3345308934900679542120039228int,
        1142093016327920596906725826int,
        7515463872572890345451339158int,
        7312244209570480067874917173int,
        7877920899182954549525171623int,
        2235974470733401269910022979int,
        4413936387976348526193836356int,
        932216121922668278567260205int,
    );
    let e: nat = 256 * e + 240;
    prime_7880826209898991662826602799_cofactor_octet(
        e,
        (0, 1, 1, 1),
        (0, 0, 1, 0),
        932216121922668278567260205int,
        6512105205038457094742161209int,
        2163308116320452507923567754int,
        7135057577007266168087513249int,
        43828425133991789496487060int,
        5613628381958510195011253070int,
        963796004066148764442591394int,
        5710417872287424916067097799int,
        3154753322443953682499061670int,
    );
    let e: nat = 256 * e + 114;
    prime_7880826209898991662826602799_cofactor_octet(
        e,
        (1, 1, 0, 1),
        (0, 0, 1, 0),
        3154753322443953682499061670int,
        659080264035479335979920315int,
        3382884985427256716190602974int,
        2873911563225758198979831015int,
        7739584683324910241124687625int,
        638435730168217652517230493int,
        3002074507846937535461230681int,
        1110951634631605017978628813int,
        2107688518115451092347028952int,
    );
    let e: nat = 256 * e + 210;
    assert(e == 1519276552914nat);
}

/// Eight bits of an exponent at once, for `prime_7880826209898991662826602799_factor`.
proof fn prime_7880826209898991662826602799_factor_octet(
    e: nat,
    b: (nat, nat, nat, nat),
    c: (nat, nat, nat, nat),
    x0: int,
    x1: int,
    x2: int,
    x3: int,
    x4: int,
    x5: int,
    x6: int,
    x7: int,
    x8: int,
)
    requires
        b.0 <= 1,
        b.1 <= 1,
        b.2 <= 1,
        b.3 <= 1,
        c.0 <= 1,
        c.1 <= 1,
        c.2 <= 1,
        c.3 <= 1,
        pow(2107688518115451092347028952int, e) % 7880826209898991662826602799int == x0,
        primes::bit_step(x0, b.0, 2107688518115451092347028952int, 7880826209898991662826602799int) == x1,
        primes::bit_step(x1, b.1, 2107688518115451092347028952int, 7880826209898991662826602799int) == x2,
        primes::bit_step(x2, b.2, 2107688518115451092347028952int, 7880826209898991662826602799int) == x3,
        primes::bit_step(x3, b.3, 2107688518115451092347028952int, 7880826209898991662826602799int) == x4,
        primes::bit_step(x4, c.0, 2107688518115451092347028952int, 7880826209898991662826602799int) == x5,
        primes::bit_step(x5, c.1, 2107688518115451092347028952int, 7880826209898991662826602799int) == x6,
        primes::bit_step(x6, c.2, 2107688518115451092347028952int, 7880826209898991662826602799int) == x7,
        primes::bit_step(x7, c.3, 2107688518115451092347028952int, 7880826209898991662826602799int) == x8,
    ensures
        pow(
            2107688518115451092347028952int,
            256 * e + 128 * b.0 + 64 * b.1 + 32 * b.2 + 16 * b.3 + 8 * c.0 + 4 * c.1 + 2 * c.2 + c.3,
        ) % 7880826209898991662826602799int == x8,
{
    primes::lemma_four_bits(2107688518115451092347028952int, 7880826209898991662826602799int, e, b, x0, x1, x2, x3, x4);
    let f = 16 * e + 8 * b.0 + 4 * b.1 + 2 * b.2 + b.3;
    primes::lemma_four_bits(2107688518115451092347028952int, 7880826209898991662826602799int, f, c, x4, x5, x6, x7, x8);
}

/// The residue of `prime_7880826209898991662826602799_cofactor` to the power q.
proof fn prime_7880826209898991662826602799_factor()
    ensures
        pow(2107688518115451092347028952int, 5187222954756607nat) % 7880826209898991662826602799int == 1,
{
    primes::lemma_first_powers(2107688518115451092347028952int, 7880826209898991662826602799int);
    let e: nat = 1;
    primes::lemma_four_bits(2107688518115451092347028952int, 7880826209898991662826602799int, e, (0, 0, 1, 0), 2107688518115451092347028952int, 2691929884382952257391820994int, 5883439322263960792613899317int, 4515246523946938706521576513int, 6872025767494012296715821401int);
    let e: nat = 16 * e + 2;
    prime_7880826209898991662826602799_factor_octet(
        e,
        (0, 1, 1, 0),
        (1, 1, 0, 1),
        6872025767494012296715821401int,
        1920139964633989792538840843int,
        7749509253973494534291373781int,
        4654268056762545915959825482int,
        2426718612128131148393206766int,
        4993242194702777684083774748int,
        4213229994739216168109688770int,
        3725538119454284775632547601int,
        2844662061048265652926854275int,
    );
    let e: nat = 256 * e + 109;
    prime_7880826209898991662826602799_factor_octet(
        e,
        (1, 1, 0, 0),
        (0, 0, 0, 0),
        2844662061048265652926854275int,
        2744230741169661683194814895int,
        159631478956891516125391393int,
        3505699194130575467780291699int,
        7409952500837645532473027609int,
        1402540830752912286102314886int,
        1307754099423021160866048545int,
        69050184805075071496023295int,
        6704365096041757200430117720int,
    );
    let e: nat = 256 * e + 192;
    prime_7880826209898991662826602799_factor_octet(
        e,
        (0, 1, 1, 1),
        (0, 1, 0, 1),
        6704365096041757200430117720int,
        1574681802310601139105180662int,
        6414241930692337805615792632int,
        2133113143907111496933726040int,
        4197729017441259172813604421int,
        7758352004341381420688636919int,
        5103236202163389795625024517int,
        7775772397828884729011209246int,
        1599441402886016971896794063int,
    );
    let e: nat = 256 * e + 117;
    prime_7880826209898991662826602799_factor_octet(
        e,
        (1, 0, 0, 1),
        (0, 1, 1, 0),
        1599441402886016971896794063int,
        2398766484103363622327623224int,
        5475383283553273314619282964int,
        3213904713095000031051971329int,
        4205808357394109081889396976int,
        2197609727754921640937777765int,
        7137017809276499464679270093int,
        2804432643980443352784561049int,
        1857286020339673977961254469int,
    );
    let e: nat = 256 * e + 150;
    prime_7880826209898991662826602799_factor_octet(
        e,
        (1, 1, 0, 0),
        (1, 0, 0, 1),
        1857286020339673977961254469int,
        3988127450543609145594151503int,
        2878167828115614754305921673int,
        1006296600862024259326151290int,
        2564149701941516628595454929int,
        2067537197035126986160339359int,
        1758101972934667596358955015int,
        235721455246676824451772089int,
        380620868958516317561468587int,
    );
    let e: nat = 256 * e + 201;
    prime_7880826209898991662826602799_factor_octet(
        e,
        (1, 1, 1, 1),
        (1, 1, 1, 1),
        380620868958516317561468587int,
        6652127110164696146219266749int,
        5320366198773015137402549902int,
        1831544853427624454279208315int,
        5890012309643449704741771805int,
        6228292184652059558007996721int,
        6205425055989446934347954228int,
        3303441338450838752420176054int,
        1,
    );
    let e: nat = 256 * e + 255;
    assert(e == 5187222954756607nat);
}

pub(crate) proof fn prime_7880826209898991662826602799()
    ensures
        primes::is_prime(7880826209898991662826602799nat),
{
    prime_5187222954756607();
    prime_7880826209898991662826602799_cofactor();
    prime_7880826209898991662826602799_factor();
    primes::lemma_compose_residues(2, 7880826209898991662826602799int, 1519276552914nat, 5187222954756607nat, 2107688518115451092347028952int, 1);
    primes::lemma_prime_by_one(7880826209898991662826602799nat, 2, 5187222954756607nat, 1519276552914nat, 2107688518115451092347028952int, 5552404475236633408711748341int);
}

/// Eight bits of an exponent at once, for `prime_cofactor_cofactor`.
proof fn prime_cofactor_cofactor_octet(
    e: nat,
    b: (nat, nat, nat, nat),
    c: (nat, nat, nat, nat),
    x0: int,
    x1: int,
    x2: int,
    x3: int,
    x4: int,
    x5: int,
    x6: int,
    x7: int,
    x8: int,
)
    requires
        b.0 <= 1,
        b.1 <= 1,
        b.2 <= 1,
        b.3 <= 1,
        c.0 <= 1,
        c.1 <= 1,
        c.2 <= 1,
        c.3 <= 1,
        pow(2, e) % 73387170334035996766247648424745786170238574695861388454532790956181int == x0,
        primes::bit_step(x0, b.0, 2, 73387170334035996766247648424745786170238574695861388454532790956181int) == x1,
        primes::bit_step(x1, b.1, 2, 73387170334035996766247648424745786170238574695861388454532790956181int) == x2,
        primes::bit_step(x2, b.2, 2, 73387170334035996766247648424745786170238574695861388454532790956181int) == x3,
        primes::bit_step(x3, b.3, 2, 73387170334035996766247648424745786170238574695861388454532790956181int) == x4,
        primes::bit_step(x4, c.0, 2, 73387170334035996766247648424745786170238574695861388454532790956181int) == x5,
        primes::bit_step(x5, c.1, 2, 73387170334035996766247648424745786170238574695861388454532790956181int) == x6,
        primes::bit_step(x6, c.2, 2, 73387170334035996766247648424745786170238574695861388454532790956181int) == x7,
        primes::bit_step(x7, c.3, 2, 73387170334035996766247648424745786170238574695861388454532790956181int) == x8,
    ensures
        pow(
            2,
            256 * e + 128 * b.0 + 64 * b.1 + 32 * b.2 + 16 * b.3 + 8 * c.0 + 4 * c.1 + 2 * c.2 + c.3,
        ) % 73387170334035996766247648424745786170238574695861388454532790956181int == x8,
{
    primes::lemma_four_bits(2, 73387170334035996766247648424745786170238574695861388454532790956181int, e, b, x0, x1, x2, x3, x4);
    let f = 16 * e + 8 * b.0 + 4 * b.1 + 2 * b.2 + b.3;
    primes::lemma_four_bits(2, 73387170334035996766247648424745786170238574695861388454532790956181int, f, c, x4, x5, x6, x7, x8);
}

/// On the way to `prime_cofactor_cofactor`.
proof fn prime_cofactor_cofactor_1()
    ensures
        pow(2, 17126103026939517nat) % 73387170334035996766247648424745786170238574695861388454532790956181int == 60386105187010104169866565459625289998908729701655418430868393574471int,
{
    primes::lemma_first_powers(2, 73387170334035996766247648424745786170238574695861388454532790956181int);
    let e: nat = 1;
    primes::lemma_bit_step(2, 73387170334035996766247648424745786170238574695861388454532790956181int, e, 1, 2);
    let e: nat = 2 * e + 1;
    primes::lemma_four_bits(2, 73387170334035996766247648424745786170238574695861388454532790956181int, e, (1, 1, 0, 0), 8, 128, 32768, 1073741824, 1152921504606846976int);
    let e: nat = 16 * e + 12;
    prime_cofactor_cofactor_octet(
        e,
        (1, 1, 0, 1),
        (1, 0, 0, 0),
        1152921504606846976int,
        2658455991569831745807614120560689152int,
        40576040071479503251681095185981301070495708568941687561408225716703int,
        53128853337469458277617802037004347055958268730114441239968720619793int,
        36839242978942115732296939638783876565240908118493623021696493059679int,
        56666007555408034923056212603829709814003250106063015682039116531826int,
        8188955698506912200760294940813257067817645911238998930842139781746int,
        43975408569401861510044968852678270965342462861867226664943165256094int,
        16039812574159438429620347426848702967054023706104399525514278315165int,
    );
    let e: nat = 256 * e + 216;
    prime_cofactor_cofactor_octet(
        e,
        (0, 0, 0, 1),
        (1, 0, 0, 1),
        16039812574159438429620347426848702967054023706104399525514278315165int,
        42819469054309449517898972566127112356760644409553256632070896979963int,
        12475586894389298771299589103250210640499726734035870787587939953692int,
        48505655901433156994735282399217702700805486542672326606716594322157int,
        69674421639822259931067818795086916257237571810423423084693295961865int,
        67680781938773553999258313767165316303499787007098897342337866240901int,
        64427253597078692792949567554422134665108703651243520763404453433887int,
        59348135204872852207442593747061791154865365350193331772095792511529int,
        44909557182738719825207882280452455404307508203327029885480465296623int,
    );
    let e: nat = 256 * e + 25;
    prime_cofactor_cofactor_octet(
        e,
        (1, 0, 0, 1),
        (0, 1, 1, 1),
        44909557182738719825207882280452455404307508203327029885480465296623int,
        68341582904655826821153429807092135294809753403161950258453678432751int,
        35791422784817285275598889645120284239501249291764489414234664773387int,
        56315783686439381379085504991378332192302062507540749568206695570916int,
        17798546543025963767658693749426528013822934093577267174991468369241int,
        60250382409776919002522567334022913178216396821982289448167949914304int,
        34269358366634544454995549328521765360817440234804023103614514662743int,
        51569434555140118381648568512836320638682481511793489528849824933424int,
        27622833767536891874425956831711531528011038573511386185167666669857int,
    );
    let e: nat = 256 * e + 151;
    prime_cofactor_cofactor_octet(
        e,
        (0, 1, 0, 0),
        (1, 1, 1, 0),
        27622833767536891874425956831711531528011038573511386185167666669857int,
        32644433997505882155169836866318942011601496085784646438453546659391int,
        32003149379397131255945724340731639259253648921700141060684131884184int,
        59311148218850869747218207523611983813763912983829232186460684321386int,
        18464373333821984377356681616295022264734787166539004224423047210096int,
        19869936168954609873294824880912986090546013465556205455309568596137int,
        53681692753386625337165503254903134036160161173722239063695183083992int,
        70784800793307079460991375678982609492801494050544208341864816922479int,
        65807469905228135571675137438009421910958329387914490556066396929378int,
    );
    let e: nat = 256 * e + 78;
    prime_cofactor_cofactor_octet(
        e,
        (1, 0, 1, 1),
        (0, 1, 1, 0),
        65807469905228135571675137438009421910958329387914490556066396929378int,
        34054282979635756325164719578980137026815586530183536867095409012016int,
        63294465120128816639664648115440700083483739131641807911334853037830int,
        68608503298071769795061515298088269838485759964666668090447956677523int,
        63704972715757011845443855568537051858757875208869389635948647332199int,
        13308104690057844262410935647504377963039267668876681228769356956662int,
        16099995157167011234300205295599589189887626526009799284576423386631int,
        1309778526678847734094450612211952127765261560386570163864622794774int,
        59220523887619212615394238521997084643831430717729982800867377020522int,
    );
    let e: nat = 256 * e + 182;
    prime_cofactor_cofactor_octet(
        e,
        (0, 1, 1, 1),
        (1, 1, 0, 1),
        59220523887619212615394238521997084643831430717729982800867377020522int,
        29368110215410982893825659722483503227910016402633967413432225560478int,
        3134336394297391807409688046371967432120626259862766066613618401090int,
        23472285335915888840363517448726469310876046238992022715124145036229int,
        9628245893234641479099432202551984062971745086057434095115155172010int,
        27825625213230919902345750434017363016613400608638524240353465998808int,
        50191712948136938978011332669014293500790340546789375054670550133045int,
        28352241915894019635083150517008657874186149765846650792492532975706int,
        60386105187010104169866565459625289998908729701655418430868393574471int,
    );
    let e: nat = 256 * e + 125;
    assert(e == 17126103026939517nat);
}

/// 2 to the power (n - 1) / (q1 q2), for `prime_cofactor`.
proof fn prime_cofactor_cofactor()
    ensures
        pow(2, 18830349416609749721222646940nat) % 73387170334035996766247648424745786170238574695861388454532790956181int == 28541000122140861950096533449768285739810532835794822346858673895444int,
{
    prime_cofactor_cofactor_1();
    let e: nat = 17126103026939517nat;
    prime_cofactor_cofactor_octet(
        e,
        (1, 0, 0, 0),
        (1, 1, 0, 0),
        60386105187010104169866565459625289998908729701655418430868393574471int,
        44093641290107204910662901225407305350390224980150373423982696690639int,
        62191671780118181974570236988300032656827021089619681920169815530184int,
        23421026244928468512169162628232995924770874781807046734352602037391int,
        2333789555967693630977766097657840977508980500858849365504720212687int,
        30201044233036731552328787640052310687192523830715510768335861517356int,
        21758903110598362376725520593786340830584836927310449647022770496948int,
        7378696758789954337000630884857142873827227708497498624671445941492int,
        64576903807971618348564753611079075490174420072827944569372128625264int,
    );
    let e: nat = 256 * e + 140;
    prime_cofactor_cofactor_octet(
        e,
        (1, 1, 0, 1),
        (1, 1, 1, 1),
        64576903807971618348564753611079075490174420072827944569372128625264int,
        23931149980118918706553911593527907529137194672463510615302335959876int,
        55280009730231143540771243443749274558001223714274926596671281428294int,
        34288526955979808745302927304856380461051895256511857154653645879060int,
        48947434469231852078808462541317454048670408049195431634807569907408int,
        23002700783707136537051615570565042655921683085644786319318483121737int,
        21826800668344017106735310503737851255162197228289298690745659403194int,
        53168749785242771180810076050296017178560920835954437034057331599384int,
        67978526252893887111525915226171236977967296795500679909898517322970int,
    );
    let e: nat = 256 * e + 223;
    prime_cofactor_cofactor_octet(
        e,
        (1, 1, 1, 1),
        (1, 1, 1, 0),
        67978526252893887111525915226171236977967296795500679909898517322970int,
        68096164564132945754824863764087541627849050030061953090018420623402int,
        37670272000408622681352574440234631569020943206952737414485853226787int,
        29467259025364144510044713726360126874489101428154474337746678612261int,
        57234786583949430021535744473910170221723507762568288635684431696327int,
        3686976751709333233649369256321932532897154260071255604065429572512int,
        7298234750396955442474583420893858154979540834547839936774800788252int,
        31476990619766677011177041702337914739242336018519316114347554788597int,
        31796864549982383806384250334659192374405295475983291620038335601430int,
    );
    let e: nat = 256 * e + 254;
    prime_cofactor_cofactor_octet(
        e,
        (1, 0, 0, 0),
        (1, 1, 0, 0),
        31796864549982383806384250334659192374405295475983291620038335601430int,
        57079038698090631719341005081973940615939714238194608445163145005296int,
        40596279813515167022117814199027669955030896545745161110387664121283int,
        7845137371653010846429678803297555056623662425638198114453425970423int,
        11027395932957815618198121100266103405834756788749741519939567332544int,
        39086903482580588800134998954494084919297140376304189298785220048512int,
        684129921358284547211815213751880197447004454586218466380437061191int,
        66102867155315613948368418368144977967632312832114188149429639779081int,
        64397067646691637512454292000590381026417388863931499784516391066928int,
    );
    let e: nat = 256 * e + 140;
    prime_cofactor_cofactor_octet(
        e,
        (1, 0, 0, 1),
        (1, 1, 0, 0),
        64397067646691637512454292000590381026417388863931499784516391066928int,
        73036701397130623329997703414103126932521474536186238828718236083945int,
        48834092674646489962829467977457028444872272135067466040482024929598int,
        11008409092020332217678493713991784291499413212467866698088266142871int,
        14659241551661184209132386708878792945780882765010433581645654079765int,
        37391981613782291828764167231514879121736432488311346877021689350896int,
        19269855849611008059012698958185651508067354093793166703839757312547int,
        25209361307599129621908275942939615330678125560142196476751505195850int,
        28541000122140861950096533449768285739810532835794822346858673895444int,
    );
    let e: nat = 256 * e + 156;
    assert(e == 18830349416609749721222646940nat);
}

/// Eight bits of an exponent at once, for `prime_cofactor_second`.
proof fn prime_cofactor_second_octet(
    e: nat,
    b: (nat, nat, nat, nat),
    c: (nat, nat, nat, nat),
    x0: int,
    x1: int,
    x2: int,
    x3: int,
    x4: int,
    x5: int,
    x6: int,
    x7: int,
    x8: int,
)
    requires
        b.0 <= 1,
        b.1 <= 1,
        b.2 <= 1,
        b.3 <= 1,
        c.0 <= 1,
        c.1 <= 1,
        c.2 <= 1,
        c.3 <= 1,
        pow(28541000122140861950096533449768285739810532835794822346858673895444int, e) % 73387170334035996766247648424745786170238574695861388454532790956181int == x0,
        primes::bit_step(x0, b.0, 28541000122140861950096533449768285739810532835794822346858673895444int, 73387170334035996766247648424745786170238574695861388454532790956181int) == x1,
        primes::bit_step(x1, b.1, 28541000122140861950096533449768285739810532835794822346858673895444int, 73387170334035996766247648424745786170238574695861388454532790956181int) == x2,
        primes::bit_step(x2, b.2, 28541000122140861950096533449768285739810532835794822346858673895444int, 73387170334035996766247648424745786170238574695861388454532790956181int) == x3,
        primes::bit_step(x3, b.3, 28541000122140861950096533449768285739810532835794822346858673895444int, 73387170334035996766247648424745786170238574695861388454532790956181int) == x4,
        primes::bit_step(x4, c.0, 28541000122140861950096533449768285739810532835794822346858673895444int, 73387170334035996766247648424745786170238574695861388454532790956181int) == x5,
        primes::bit_step(x5, c.1, 28541000122140861950096533449768285739810532835794822346858673895444int, 73387170334035996766247648424745786170238574695861388454532790956181int) == x6,
        primes::bit_step(x6, c.2, 28541000122140861950096533449768285739810532835794822346858673895444int, 73387170334035996766247648424745786170238574695861388454532790956181int) == x7,
        primes::bit_step(x7, c.3, 28541000122140861950096533449768285739810532835794822346858673895444int, 73387170334035996766247648424745786170238574695861388454532790956181int) == x8,
    ensures
        pow(
            28541000122140861950096533449768285739810532835794822346858673895444int,
            256 * e + 128 * b.0 + 64 * b.1 + 32 * b.2 + 16 * b.3 + 8 * c.0 + 4 * c.1 + 2 * c.2 + c.3,
        ) % 73387170334035996766247648424745786170238574695861388454532790956181int == x8,
{
    primes::lemma_four_bits(28541000122140861950096533449768285739810532835794822346858673895444int, 73387170334035996766247648424745786170238574695861388454532790956181int, e, b, x0, x1, x2, x3, x4);
    let f = 16 * e + 8 * b.0 + 4 * b.1 + 2 * b.2 + b.3;
    primes::lemma_four_bits(28541000122140861950096533449768285739810532835794822346858673895444int, 73387170334035996766247648424745786170238574695861388454532790956181int, f, c, x4, x5, x6, x7, x8);
}

/// On the way to `prime_cofactor_second`.
proof fn prime_cofactor_second_1()
    ensures
        pow(28541000122140861950096533449768285739810532835794822346858673895444int, 7167569683496359nat) % 73387170334035996766247648424745786170238574695861388454532790956181int == 40518648383407887433866376739447769882799787115965965813582243070615int,
{
    primes::lemma_first_powers(28541000122140861950096533449768285739810532835794822346858673895444int, 73387170334035996766247648424745786170238574695861388454532790956181int);
    let e: nat = 1;
    primes::lemma_four_bits(28541000122140861950096533449768285739810532835794822346858673895444int, 73387170334035996766247648424745786170238574695861388454532790956181int, e, (1, 0, 0, 1), 28541000122140861950096533449768285739810532835794822346858673895444int, 59206629502078466924505463697335984181310349582612647356415772615869int, 69495242229619316473520088950534533237028242269163633097196685475689int, 21429620375584210216596352697075276242618546451840209457500145348903int, 4661255086593610578885753544177194298693473227289007830390749638602int);
    let e: nat = 16 * e + 9;
    prime_cofactor_second_octet(
        e,
        (0, 1, 1, 1),
        (0, 1, 1, 0),
        4661255086593610578885753544177194298693473227289007830390749638602int,
        44381189444451840242800393892196381843417356890028140179763690387321int,
        39093168974239174725636226317215655015464221842159579328301586169227int,
        10650567413491920497587040931772368846695173791321843169087986937327int,
        52110058829141858567098586953012923701527575240893608789014677253966int,
        59196885069526397565884721805655368268984027307996166469332498112533int,
        40134605465573483791659714176413561603227497122669969327958467954357int,
        19431737420787997538713083256030404515431954565220869682494288689689int,
        65461689552077621227553063204174465534415250010326939376316242750606int,
    );
    let e: nat = 256 * e + 118;
    prime_cofactor_second_octet(
        e,
        (1, 1, 0, 1),
        (1, 1, 0, 1),
        65461689552077621227553063204174465534415250010326939376316242750606int,
        36159192631326597758559897497790540881766824769067485928660325282576int,
        9098725601499470567964659638025554561338055057030114471040307127701int,
        41236434849696715752721695482360742811245650527908432772383762239687int,
        1647221844907463581126787247652075049168611190911662974640261547409int,
        10197887365734596267497037583542098038089929527517040713719676071802int,
        46824625179060101529158123248337774521736672777506373137105701474805int,
        50148015883174738400873908825746623554222802542441348717566541554824int,
        42080729239833063316724707249147346942887827063987035612700894089482int,
    );
    let e: nat = 256 * e + 221;
    prime_cofactor_second_octet(
        e,
        (1, 1, 0, 1),
        (1, 1, 0, 0),
        42080729239833063316724707249147346942887827063987035612700894089482int,
        56196759581940318014578547417384961507223265485829919269663186137304int,
        34788235495011289634137528319837530830619367255617196977426984273404int,
        5951026170110136239987035574051737122037234329069655622838381958046int,
        59603125448191645730882279738245855064341467310489349734391629275474int,
        6332557966996082343236287136704566428397316623789374735962460670310int,
        38850125211983973901885412751934279306360934956900898484032709880606int,
        41794257963436704452933396774766190686645421952490520034280529107695int,
        6461502568795563881136130263987607161473357432963924501068761958550int,
    );
    let e: nat = 256 * e + 220;
    prime_cofactor_second_octet(
        e,
        (1, 1, 1, 0),
        (0, 0, 1, 1),
        6461502568795563881136130263987607161473357432963924501068761958550int,
        70637486705719530777098142463091283832865354549999060619007384970104int,
        13272243894199235514031516282298905827757742402963617470607645608249int,
        27823806342196932333558630840279574419585884379647784339458696608979int,
        10510900443942000267640335380795387622712357471072806958340711769521int,
        61373154132449232380188438506547856846733759400289978918466897061560int,
        67785392238152119912568733660492046981070108162731680246812391534509int,
        60825488486878104741733014455313208848912118236626746847632169012588int,
        39830218774842336311542919138463954514681145390394756933306127376392int,
    );
    let e: nat = 256 * e + 227;
    prime_cofactor_second_octet(
        e,
        (0, 0, 1, 1),
        (1, 1, 0, 1),
        39830218774842336311542919138463954514681145390394756933306127376392int,
        72842369783299384855076210089840234323180962005310041988107464182371int,
        71648991319857930706071695455099950216125361631972813583173186108432int,
        52145247162327573315877024319751168768244341687458288152183030075890int,
        13964406286230933758560582893105675775214105970640270413698449800385int,
        15356298494732759493526734891978788521219928280738303493652033346793int,
        27114159133565585459372309585201805007429871619900582560160500877066int,
        69683759362257484463614886356215441458794844143061582833821963108387int,
        32368945485258598319841887901702616862746811054473023047986928422069int,
    );
    let e: nat = 256 * e + 61;
    prime_cofactor_second_octet(
        e,
        (1, 0, 1, 0),
        (0, 1, 1, 1),
        32368945485258598319841887901702616862746811054473023047986928422069int,
        13655510436711225247159114562229957994656925286959111078206453734738int,
        59709218688813598071561586492145480500279811037702931376249689932824int,
        64347727101686006517160940801561508655259686055976919866403030922950int,
        9391899394278242266752822855612291341195958920268367640087719931546int,
        46343647119201537065595961964744886772463490522592831253962356381685int,
        32100873505152544540185594206774018383720011988617333656995217032962int,
        33962296166196764068536814913611177239751791040652652448566010910351int,
        40518648383407887433866376739447769882799787115965965813582243070615int,
    );
    let e: nat = 256 * e + 167;
    assert(e == 7167569683496359nat);
}

/// The residue of `prime_cofactor_cofactor` to the power q2.
proof fn prime_cofactor_second()
    ensures
        pow(28541000122140861950096533449768285739810532835794822346858673895444int, 7880826209898991662826602799nat) % 73387170334035996766247648424745786170238574695861388454532790956181int == 61932434576407608233125105963465926451588990436245390081624595555710int,
{
    prime_cofactor_second_1();
    let e: nat = 7167569683496359nat;
    prime_cofactor_second_octet(
        e,
        (1, 1, 0, 0),
        (0, 1, 1, 1),
        40518648383407887433866376739447769882799787115965965813582243070615int,
        8346741722985114540048520173522818428887616794913001138222286622413int,
        68716595409404478019065603647710656180541435226611971726276253335886int,
        3706551008139748313079604634165544326172348917579997255987483360947int,
        30441005502292176049231260751147661909615194019710608639436438672344int,
        42881399450959277421991796123598806964723693691923232180418711888708int,
        47817896141844228028173589809180602957121717940521127590653205307950int,
        50430920497972821742089841838538292884031796647329381627036817303154int,
        47710736437851556823359699808507402753778317528488462031671383760682int,
    );
    let e: nat = 256 * e + 199;
    prime_cofactor_second_octet(
        e,
        (0, 0, 1, 1),
        (1, 1, 1, 1),
        47710736437851556823359699808507402753778317528488462031671383760682int,
        33617367470472121547518531139926667709085907437523996679110809279659int,
        29283437131842368768381070806662605695665536550657944270154615704922int,
        49503853018214193409175855700603256496874779221731364737134335859084int,
        22790483576832732237076139487634294692455222418786055764361971268163int,
        53927159595875649947632313873653285181285359048097015339316686962813int,
        60397157419753213968112622716483631133104748001643947312032762044662int,
        12579746362695270184614759981987508572412718420371602307323853740732int,
        70575211311223342127665587822442964229566788863410282780511734185354int,
    );
    let e: nat = 256 * e + 63;
    prime_cofactor_second_octet(
        e,
        (1, 0, 1, 1),
        (0, 1, 0, 1),
        70575211311223342127665587822442964229566788863410282780511734185354int,
        57035052916564101115047629910890484490646058890158761610077135410992int,
        8964349066449249277133030057384439542052484045875539618503780189764int,
        65515597576063935807015619440247771030873222158500130193270282100007int,
        19826971361817489199021955988617684050939731009580139633626673541022int,
        35066843309095142981155512223102018264628007965528599468141399356828int,
        21718547707790109759187899873430770830886064991717843590394696736594int,
        43209820109618391733977969758269064360755030076695265071178325532129int,
        49905008772180891015983038421940285026411777758937607993164097896132int,
    );
    let e: nat = 256 * e + 181;
    prime_cofactor_second_octet(
        e,
        (0, 1, 0, 0),
        (0, 0, 0, 1),
        49905008772180891015983038421940285026411777758937607993164097896132int,
        71936454587685363003353022910094771930236351839722842328304376994919int,
        61922375689428192747176361971385382804230484870949835400222026896913int,
        68583373928083622346297112114047889294764522827738579644156010217254int,
        59505859405123384516639158794775187507193210276771480803848836950962int,
        39218198919459428075789330086140146205279523906289374079562872594918int,
        23002259792269346751444965622365034056923385919832999837195461769060int,
        64270726183153995566912082967558634545599340418795544513807742863598int,
        1077131692555902212240737222961365560485107593960632433308361421927int,
    );
    let e: nat = 256 * e + 65;
    prime_cofactor_second_octet(
        e,
        (0, 0, 1, 0),
        (1, 1, 1, 1),
        1077131692555902212240737222961365560485107593960632433308361421927int,
        43475223596630265751630393459907769309808676383899931488878961316205int,
        69066053264537425886883812677501586590038298600076873541209238356320int,
        51088613174790404294690959057685143875631110841679983344335721563376int,
        14987088095567170551896299405279382557127455324584227596655423781771int,
        12119899708065049932258524353292934839318652278181105561398208437780int,
        7314747716300241980948402128184296756758391922898988153347979477952int,
        47252827959950097627860335849232396459602552566757394991845985750645int,
        61932434576407608233125105963465926451588990436245390081624595555710int,
    );
    let e: nat = 256 * e + 47;
    assert(e == 7880826209898991662826602799nat);
}

/// The residue of `prime_cofactor_cofactor` to the power q1.
proof fn prime_cofactor_first()
    ensures
        pow(28541000122140861950096533449768285739810532835794822346858673895444int, 494527005853nat) % 73387170334035996766247648424745786170238574695861388454532790956181int == 22606881030494985252327424699279591234745930879927742082091743433851int,
{
    primes::lemma_first_powers(28541000122140861950096533449768285739810532835794822346858673895444int, 73387170334035996766247648424745786170238574695861388454532790956181int);
    let e: nat = 1;
    primes::lemma_bit_step(28541000122140861950096533449768285739810532835794822346858673895444int, 73387170334035996766247648424745786170238574695861388454532790956181int, e, 1, 28541000122140861950096533449768285739810532835794822346858673895444int);
    let e: nat = 2 * e + 1;
    primes::lemma_bit_step(28541000122140861950096533449768285739810532835794822346858673895444int, 73387170334035996766247648424745786170238574695861388454532790956181int, e, 1, 59206629502078466924505463697335984181310349582612647356415772615869int);
    let e: nat = 2 * e + 1;
    primes::lemma_four_bits(28541000122140861950096533449768285739810532835794822346858673895444int, 73387170334035996766247648424745786170238574695861388454532790956181int, e, (0, 0, 1, 1), 55336975906969086388324144929006356165882911625724099167157152479664int, 21225000604108607931822874163938624151068384403714686050681772918516int, 36381813484832145239235232405686700386853380332606596995487000208457int, 60320059845484532083410723705896140146135038157491949025628425251506int, 10740810251370801362292531322470408315627393228680046511094452981236int);
    let e: nat = 16 * e + 3;
    primes::lemma_four_bits(28541000122140861950096533449768285739810532835794822346858673895444int, 73387170334035996766247648424745786170238574695861388454532790956181int, e, (0, 0, 1, 0), 10740810251370801362292531322470408315627393228680046511094452981236int, 15650202705352249794038137704604847691704795787592134241845525819827int, 37554254911262161312990705869633387732439269552693837655424150441605int, 32608332938521277881976502156616037189764716296827740305739217761631int, 72469908432227913192122088811714969966697042258353873403935110732045int);
    let e: nat = 16 * e + 2;
    primes::lemma_four_bits(28541000122140861950096533449768285739810532835794822346858673895444int, 73387170334035996766247648424745786170238574695861388454532790956181int, e, (0, 1, 0, 0), 72469908432227913192122088811714969966697042258353873403935110732045int, 16382302546771244662066287091204491606683337388127794295816953345274int, 22642804049497382827875524114498128645216206272324878986814344820980int, 35722862632042514047296915856407754023122316973409587035314994139757int, 44541410384920508111532730323460819958089354972729003119792444647370int);
    let e: nat = 16 * e + 4;
    primes::lemma_four_bits(28541000122140861950096533449768285739810532835794822346858673895444int, 73387170334035996766247648424745786170238574695861388454532790956181int, e, (0, 0, 0, 1), 44541410384920508111532730323460819958089354972729003119792444647370int, 16407322315305156868834793948274759496118086551467622288072062976614int, 52698241971981758219557213287546558865810877771040266455036177327423int, 8416043100701317002138112223361632975472557991194672612687388062742int, 44770511084513253749717598435798493599023232174611004237427706412863int);
    let e: nat = 16 * e + 1;
    primes::lemma_four_bits(28541000122140861950096533449768285739810532835794822346858673895444int, 73387170334035996766247648424745786170238574695861388454532790956181int, e, (1, 0, 1, 1), 44770511084513253749717598435798493599023232174611004237427706412863int, 48280874423967786446413844045471325625240549664529558360043272259179int, 27293264007104445706218954470718868270441764633652262536233233725682int, 11986786161459930121464434069870903547849505453879545274531060384254int, 39527140831545716873505907633197490730609361482475330573445747238645int);
    let e: nat = 16 * e + 11;
    primes::lemma_four_bits(28541000122140861950096533449768285739810532835794822346858673895444int, 73387170334035996766247648424745786170238574695861388454532790956181int, e, (0, 1, 0, 0), 39527140831545716873505907633197490730609361482475330573445747238645int, 43969921294219524095677314045426198841576208880212356683822803129708int, 34684077114541942426977145549263223147428627794733497251927531799316int, 55862313034412287209712889054027251556131155641583165355247009347526int, 43788424228560239156060241350193474638762805590461229775030598561516int);
    let e: nat = 16 * e + 4;
    primes::lemma_four_bits(28541000122140861950096533449768285739810532835794822346858673895444int, 73387170334035996766247648424745786170238574695861388454532790956181int, e, (0, 1, 0, 0), 43788424228560239156060241350193474638762805590461229775030598561516int, 12295309403125070726116456522080381530971644530476304364238317401014int, 55751583047986957784820189358553959230055532761790620832166865379525int, 48569413215603631305434587503666732852833269952352288183702263092900int, 57636823016149449995469782384994139966578619320042904017365781902105int);
    let e: nat = 16 * e + 4;
    primes::lemma_four_bits(28541000122140861950096533449768285739810532835794822346858673895444int, 73387170334035996766247648424745786170238574695861388454532790956181int, e, (1, 0, 0, 1), 57636823016149449995469782384994139966578619320042904017365781902105int, 12996934657074191570909224814794904078397355535865331682245160793862int, 45987467929257359434112423800245450435783389485571838469429252072155int, 51917216797949376424438770852575181400966153862772982891644594997120int, 1455023063306858167438160016967119536638472674065911266801837484167int);
    let e: nat = 16 * e + 9;
    primes::lemma_four_bits(28541000122140861950096533449768285739810532835794822346858673895444int, 73387170334035996766247648424745786170238574695861388454532790956181int, e, (1, 1, 0, 1), 1455023063306858167438160016967119536638472674065911266801837484167int, 1179134993456572804380206776774424947811228597171038941703758299567int, 704756395179661539742930830960490958644062650121010815007816722276int, 45950392247729966293604557066243709368025926731219437949411813280208int, 22606881030494985252327424699279591234745930879927742082091743433851int);
    let e: nat = 16 * e + 13;
    assert(e == 494527005853nat);
}

/// The residue of `prime_cofactor_second` to the power q1.
proof fn prime_cofactor_whole()
    ensures
        pow(61932434576407608233125105963465926451588990436245390081624595555710int, 494527005853nat) % 73387170334035996766247648424745786170238574695861388454532790956181int == 1,
{
    primes::lemma_first_powers(61932434576407608233125105963465926451588990436245390081624595555710int, 73387170334035996766247648424745786170238574695861388454532790956181int);
    let e: nat = 1;
    primes::lemma_bit_step(61932434576407608233125105963465926451588990436245390081624595555710int, 73387170334035996766247648424745786170238574695861388454532790956181int, e, 1, 61932434576407608233125105963465926451588990436245390081624595555710int);
    let e: nat = 2 * e + 1;
    primes::lemma_bit_step(61932434576407608233125105963465926451588990436245390081624595555710int, 73387170334035996766247648424745786170238574695861388454532790956181int, e, 1, 28154816984056709068698648161375643200867391486531120375320129789270int);
    let e: nat = 2 * e + 1;
    primes::lemma_four_bits(61932434576407608233125105963465926451588990436245390081624595555710int, 73387170334035996766247648424745786170238574695861388454532790956181int, e, (0, 0, 1, 1), 8411462626103841961283374935311635148020356901087408381249714591360int, 4162610380114930679440413395668062554823892626219185850331828839528int, 43849862017312599073420593502179477189004884118254570056130803736634int, 8791140589864692560369276289736042224954488477874721591938629825741int, 56829080549136307573213086516222501627572758227890565240003852628108int);
    let e: nat = 16 * e + 3;
    primes::lemma_four_bits(61932434576407608233125105963465926451588990436245390081624595555710int, 73387170334035996766247648424745786170238574695861388454532790956181int, e, (0, 0, 1, 0), 56829080549136307573213086516222501627572758227890565240003852628108int, 29733938580050868582794260294269791258793310577115517322868295998807int, 56832940038847941050182822088156505416235404429602022482670574118543int, 13069174276035787599166390001252265490138754770939977670680876573914int, 33904282069898508765338949530813608541262600388701671163210491451471int);
    let e: nat = 16 * e + 2;
    primes::lemma_four_bits(61932434576407608233125105963465926451588990436245390081624595555710int, 73387170334035996766247648424745786170238574695861388454532790956181int, e, (0, 1, 0, 0), 33904282069898508765338949530813608541262600388701671163210491451471int, 28850909371216831508314676961147749476944580652445140228019877895094int, 54408025676966090724611154277413978651363785078194565845955285665725int, 52336659124150539746111280549893761657866456923021580224280516494815int, 44072762577104276584357410333542335517999581941064228252167467412842int);
    let e: nat = 16 * e + 4;
    primes::lemma_four_bits(61932434576407608233125105963465926451588990436245390081624595555710int, 73387170334035996766247648424745786170238574695861388454532790956181int, e, (0, 0, 0, 1), 44072762577104276584357410333542335517999581941064228252167467412842int, 8602359858348674455016407865679996162524971891322546585135175134616int, 71333883111440395635919344243834909867963054578038758020100759876775int, 507417784725687857484247601981182796698771602149895676471628033719int, 36497390093676867305810199439439751501957154889066436882063769205837int);
    let e: nat = 16 * e + 1;
    primes::lemma_four_bits(61932434576407608233125105963465926451588990436245390081624595555710int, 73387170334035996766247648424745786170238574695861388454532790956181int, e, (1, 0, 1, 1), 36497390093676867305810199439439751501957154889066436882063769205837int, 33485265417152793771455488070718066428140336778464865392099854807830int, 36739511559874374284287793120781892712025543251775695372679697401858int, 59286688711940630495036015511625997493026145234392071894538889455885int, 22209114167122867817731619934131210657534688112384784125915325020496int);
    let e: nat = 16 * e + 11;
    primes::lemma_four_bits(61932434576407608233125105963465926451588990436245390081624595555710int, 73387170334035996766247648424745786170238574695861388454532790956181int, e, (0, 1, 0, 0), 22209114167122867817731619934131210657534688112384784125915325020496int, 20814076132469621811642575752092959674717583769632308786253050517046int, 72609271255980558532905245636975677689426513376367428516029084256020int, 26951851437298730366706649757976240390965025378434846886817505681605int, 53113805016860749875376833111293697850382514995641155861799354817758int);
    let e: nat = 16 * e + 4;
    primes::lemma_four_bits(61932434576407608233125105963465926451588990436245390081624595555710int, 73387170334035996766247648424745786170238574695861388454532790956181int, e, (0, 1, 0, 0), 53113805016860749875376833111293697850382514995641155861799354817758int, 72296493728872339756962888710683925685278927409196097411035750075848int, 33400119838354535638725715210154278367667723276287714558510807028584int, 48127399199796676724554101731504038543809157859440164373352346806832int, 70500212074665072879334128978502283209612281495921809216050518743677int);
    let e: nat = 16 * e + 4;
    primes::lemma_four_bits(61932434576407608233125105963465926451588990436245390081624595555710int, 73387170334035996766247648424745786170238574695861388454532790956181int, e, (1, 0, 0, 1), 70500212074665072879334128978502283209612281495921809216050518743677int, 72097934385594887058922807978800368611488379987704410953617774530361int, 27462603861419193051478208173774139650551879113446364780131355318773int, 1648393163662362891483839517896825546826384198372556026280825804663int, 23840828502164118558482728540897132591590075662955722805565829936764int);
    let e: nat = 16 * e + 9;
    primes::lemma_four_bits(61932434576407608233125105963465926451588990436245390081624595555710int, 73387170334035996766247648424745786170238574695861388454532790956181int, e, (1, 1, 0, 1), 23840828502164118558482728540897132591590075662955722805565829936764int, 2622772738094928866259999207514291404302944417025568821548441851326int, 5627914273325956701613224174143131393699264411240004764928850267321int, 65371881316890093175809987751930269709917367413380831795321362651002int, 1);
    let e: nat = 16 * e + 13;
    assert(e == 494527005853nat);
}

pub(crate) proof fn prime_cofactor()
    ensures
        primes::is_prime(73387170334035996766247648424745786170238574695861388454532790956181nat),
{
    prime_494527005853();
    prime_7880826209898991662826602799();
    prime_cofactor_cofactor();
    prime_cofactor_second();
    prime_cofactor_first();
    prime_cofactor_whole();
    primes::lemma_compose_residues(2, 73387170334035996766247648424745786170238574695861388454532790956181int, 18830349416609749721222646940nat, 7880826209898991662826602799nat, 28541000122140861950096533449768285739810532835794822346858673895444int, 61932434576407608233125105963465926451588990436245390081624595555710int);
    primes::lemma_compose_residues(2, 73387170334035996766247648424745786170238574695861388454532790956181int, 18830349416609749721222646940nat, 494527005853nat, 28541000122140861950096533449768285739810532835794822346858673895444int, 22606881030494985252327424699279591234745930879927742082091743433851int);
    primes::lemma_compose_residues(2, 73387170334035996766247648424745786170238574695861388454532790956181int, 148398711223974302661585828370309270714881923942792785060nat, 494527005853nat, 61932434576407608233125105963465926451588990436245390081624595555710int, 1);
    primes::lemma_prime_by_two(
        73387170334035996766247648424745786170238574695861388454532790956181nat,
        2,
        494527005853nat,
        7880826209898991662826602799nat,
        18830349416609749721222646940nat,
        148398711223974302661585828370309270714881923942792785060nat,
        9312116316161804835803937041613532539820nat,
        61932434576407608233125105963465926451588990436245390081624595555710int,
        22606881030494985252327424699279591234745930879927742082091743433851int,
        68818630993789390565481024562520256539503740206215948290393156097112int,
        11008652609773182404723924095078318013843730119562991296454828182697int,
    );
}

/// Eight bits of an exponent at once, for `prime_order_cofactor`.
proof fn prime_order_cofactor_octet(
    e: nat,
    b: (nat, nat, nat, nat),
    c: (nat, nat, nat, nat),
    x0: int,
    x1: int,
    x2: int,
    x3: int,
    x4: int,
    x5: int,
    x6: int,
    x7: int,
    x8: int,
)
    requires
        b.0 <= 1,
        b.1 <= 1,
        b.2 <= 1,
        b.3 <= 1,
        c.0 <= 1,
        c.1 <= 1,
        c.2 <= 1,
        c.3 <= 1,
        pow(2, e) % 258664426012969094010652733694893533536393512754914660539884262666720468348340822774968888139573360124440321458177int == x0,
        primes::bit_step(x0, b.0, 2, 258664426012969094010652733694893533536393512754914660539884262666720468348340822774968888139573360124440321458177int) == x1,
        primes::bit_step(x1, b.1, 2, 258664426012969094010652733694893533536393512754914660539884262666720468348340822774968888139573360124440321458177int) == x2,
        primes::bit_step(x2, b.2, 2, 258664426012969094010652733694893533536393512754914660539884262666720468348340822774968888139573360124440321458177int) == x3,
        primes::bit_step(x3, b.3, 2, 258664426012969094010652733694893533536393512754914660539884262666720468348340822774968888139573360124440321458177int) == x4,
        primes::bit_step(x4, c.0, 2, 258664426012969094010652733694893533536393512754914660539884262666720468348340822774968888139573360124440321458177int) == x5,
        primes::bit_step(x5, c.1, 2, 258664426012969094010652733694893533536393512754914660539884262666720468348340822774968888139573360124440321458177int) == x6,
        primes::bit_step(x6, c.2, 2, 258664426012969094010652733694893533536393512754914660539884262666720468348340822774968888139573360124440321458177int) == x7,
        primes::bit_step(x7, c.3, 2, 258664426012969094010652733694893533536393512754914660539884262666720468348340822774968888139573360124440321458177int) == x8,
    ensures
        pow(
            2,
            256 * e + 128 * b.0 + 64 * b.1 + 32 * b.2 + 16 * b.3 + 8 * c.0 + 4 * c.1 + 2 * c.2 + c.3,
        ) % 258664426012969094010652733694893533536393512754914660539884262666720468348340822774968888139573360124440321458177int == x8,
{
    primes::lemma_four_bits(2, 258664426012969094010652733694893533536393512754914660539884262666720468348340822774968888139573360124440321458177int, e, b, x0, x1, x2, x3, x4);
    let f = 16 * e + 8 * b.0 + 4 * b.1 + 2 * b.2 + b.3;
    primes::lemma_four_bits(2, 258664426012969094010652733694893533536393512754914660539884262666720468348340822774968888139573360124440321458177int, f, c, x4, x5, x6, x7, x8);
}

/// On the way to `prime_order_cofactor`.
proof fn prime_order_cofactor_1()
    ensures
        pow(2, 44487395238004631nat) % 258664426012969094010652733694893533536393512754914660539884262666720468348340822774968888139573360124440321458177int == 62546500748769850159515456355547246356730981727046542905783485490239971101201239815956906234268852289696933299916int,
{
    primes::lemma_first_powers(2, 258664426012969094010652733694893533536393512754914660539884262666720468348340822774968888139573360124440321458177int);
    let e: nat = 1;
    primes::lemma_bit_step(2, 258664426012969094010652733694893533536393512754914660539884262666720468348340822774968888139573360124440321458177int, e, 0, 2);
    let e: nat = 2 * e + 0;
    primes::lemma_bit_step(2, 258664426012969094010652733694893533536393512754914660539884262666720468348340822774968888139573360124440321458177int, e, 0, 4);
    let e: nat = 2 * e + 0;
    primes::lemma_bit_step(2, 258664426012969094010652733694893533536393512754914660539884262666720468348340822774968888139573360124440321458177int, e, 1, 16);
    let e: nat = 2 * e + 1;
    primes::lemma_four_bits(2, 258664426012969094010652733694893533536393512754914660539884262666720468348340822774968888139573360124440321458177int, e, (1, 1, 1, 0), 512, 524288, 549755813888int, 604462909807314587353088int, 365375409332725729550921208179070754913983135744int);
    let e: nat = 16 * e + 14;
    prime_order_cofactor_octet(
        e,
        (0, 0, 0, 0),
        (1, 1, 0, 1),
        365375409332725729550921208179070754913983135744int,
        133499189745056880149688856635597007162669032647290798121690100488888732861290034376435130433536int,
        59969749212862013505820218116176643045436020787520108747688333336699175319816794111499597298400307706887995178828int,
        125106158450293049667159318723286307526567204794809904515824310757883832555937195906048941948011168460637229334156int,
        245982638975859812446569587289975215154777211099234107589781481230008752871000556860055464006153316311883121411378int,
        241013798950970472127228316214269706122763648561440241182686336479294732198420468698206959910555228837580955080598int,
        103861760766625867026758093263331122426206707694207479719872063513162284882112646543017661035465995488661668446719int,
        2797108055313696048199966855381854653301905352234602814987838801583068456141278507573534560009791679608135498195int,
        211254502402956857180005137352804753427905627539937027611665875528522347113334635263065972599404368966455567911287int,
    );
    let e: nat = 256 * e + 13;
    prime_order_cofactor_octet(
        e,
        (0, 0, 0, 0),
        (1, 1, 0, 0),
        211254502402956857180005137352804753427905627539937027611665875528522347113334635263065972599404368966455567911287int,
        71134082285267684244892293470023149574912224385219602639474128975966223873019237656807335520118061544484644127673int,
        69539963743366360993559099262862162152737049595301255602199720936925502029382007796331749382969372964230920455380int,
        80997469931281970226517435523803727274645288397785517709359981883727861091764290769595018160870170154900781359811int,
        212132668975905448251050512923526530405144134302337774315029413815637825551863929939046241868421188971535679471083int,
        151830629066630177160271339357005725600238814584563429113835667953736346144524922477838977884863182497584125695888int,
        237395709003460130539736080144917723303952689221542993671317638067777939118050916136571980434258392907404247132810int,
        29716975107311046488630625683404521353330528423525613807984544848023873862275024514271421853228778687374496379015int,
        39585685076582959788803120129499939589698075977861629451563771148998400218298500860124911289896080590194728396217int,
    );
    let e: nat = 256 * e + 12;
    prime_order_cofactor_octet(
        e,
        (1, 1, 0, 1),
        (1, 1, 1, 0),
        39585685076582959788803120129499939589698075977861629451563771148998400218298500860124911289896080590194728396217int,
        74190378195453938044697667026826244653491925396383312792540588646321015381056726970814405946230441020285475970223int,
        38282293138296179639239975251456702463949227270907472464335209616116405627563548792513451863877689188612247405673int,
        193204658669169697097703877821348466981416202467625957040878823067746375269603886110454375399356724751845122836244int,
        96037711229140735165858113902042729065880926729320485335307435287462951001790071853591210076851047934537221910805int,
        253069835729008494391105238764679220950911635332826068403317451413028766171467504328544361043216271163073026543476int,
        102414093569597810201481465449320072321058824270262667519274359576699145725246740756295231593511944560162061391732int,
        199237536284165182213520631289354285139000933040745743289105562011545359777878149855356807686493221318755538200820int,
        176966832731834232872512095186239353585525754025911736346869145588566547314193909477292912704922849554104587004756int,
    );
    let e: nat = 256 * e + 222;
    prime_order_cofactor_octet(
        e,
        (0, 0, 1, 0),
        (0, 1, 0, 0),
        176966832731834232872512095186239353585525754025911736346869145588566547314193909477292912704922849554104587004756int,
        223394652128970444284413988929207981796372947495478592521809471013751411005555898319903096986194835202009888215365int,
        124095976277015460844310615854422225271598897518910908073464741307330685451157694757353378402191300880018678001177int,
        117731114412738584767379911422786509747634946288599875322272567890800264262831818550672572396096345073476006401620int,
        191738684156556165778225910435295744830317982422513982332197661835545258195213412464455761431867093353558795573074int,
        20061683447067997752072882473537182797142647938119664494462238044983341093311687291589575419509292387682617818890int,
        219516088692278591941926239374168941320549265075389128642660382041100969990127633113005781877640399145341821455317int,
        184337420703276098280687669470085191491596817010586677610960822222906704052188430124999351819737914253805000487667int,
        122925306501162478988567813456226923481796349710127939780675114400456632942912256302881713652379294174476377283267int,
    );
    let e: nat = 256 * e + 36;
    prime_order_cofactor_octet(
        e,
        (1, 1, 0, 0),
        (0, 1, 1, 1),
        122925306501162478988567813456226923481796349710127939780675114400456632942912256302881713652379294174476377283267int,
        199265256750985417702389446199247594959565530821530943560019543852016781639305171486117820941689088005908238219205int,
        173194643993409836517039340892193021607507518710355822149456081890731612705708348867158822924841848737649809788739int,
        234243814869034813332585474793466512731879504024068564282829922807409672885330435283899180930719313359815388625696int,
        12704025395752807922773225587372916927565083502503464142483166913516271381432828463048912372467420753354531819599int,
        69488119228338795516003384424832645470292910744172883288672880125369463478847282018174712351495903938614580180898int,
        24682380963093359217454060033221385291637937763497060487692066789606141654505387626483418384976623896341200193159int,
        179582567473860849389736369071855701513335463589413207997688281321061013356368303747096873862419641360515663370773int,
        154966884353568588067671601536199699510403372452168275722625787444664344731085997277527578344129483842251326840718int,
    );
    let e: nat = 256 * e + 199;
    prime_order_cofactor_octet(
        e,
        (1, 0, 0, 1),
        (0, 1, 1, 1),
        154966884353568588067671601536199699510403372452168275722625787444664344731085997277527578344129483842251326840718int,
        153387512881904041405833228309728109263809966359876131628981335706651526794219113927904982338738543657839710754842int,
        117817547080373007388166582030391411542000069437496909565731654785409135977442826769976388025585879003691987252268int,
        94973728065897829638819521202981676018442060133640173966634940325083599359019034185749820546428337661072079846043int,
        71218357070402424836006423283280390131908962361038076571685409767039872780961065752880076547763396112695299496941int,
        249713705441323159032060972429950657119369438324230795407822777390926082887360546043021609259442870977347578489978int,
        72719549085704503977394222967544517594495523037027559987336251148065254941083824078983250097959520504090431808637int,
        215201970611247351089164339579582865402439085776719857842861532707095590375060107385899019082437805106498656628634int,
        62546500748769850159515456355547246356730981727046542905783485490239971101201239815956906234268852289696933299916int,
    );
    let e: nat = 256 * e + 151;
    assert(e == 44487395238004631nat);
}

/// On the way to `prime_order_cofactor`.
proof fn prime_order_cofactor_2()
    ensures
        pow(2, 12522088538535102151135625419509nat) % 258664426012969094010652733694893533536393512754914660539884262666720468348340822774968888139573360124440321458177int == 29732028428837864100789689501624567200117044596781583571834472127695312175473499585215495611687696544882108009345int,
{
    prime_order_cofactor_1();
    let e: nat = 44487395238004631nat;
    prime_order_cofactor_octet(
        e,
        (0, 0, 0, 0),
        (0, 0, 1, 0),
        62546500748769850159515456355547246356730981727046542905783485490239971101201239815956906234268852289696933299916int,
        60735248771124852447554798647514797224258810110079164613454299781819497032174734508354018257258280143440187186739int,
        27318314198395566003163654600157708540000000222194389756465747422804145850642955977964992525717395797101193720873int,
        252529652356986670251421250681318839190556576119573451335873054015984990445644341709507547415066949187838721448726int,
        140900010794212351452954537112495669455264802548487976027220309675964314702978871716149295941699920462109201287794int,
        49295590260927537518169806019653868262204218680278994470965163011848016924595015058220325623596610655414027172335int,
        55175714274348654867115707045798035436498067442040210179664046980446464594843345529079327720107072012916712482141int,
        178018131933320880774630318498930450860677082361504291709068014922457083439182832664568537536508268429385581475224int,
        45944287602624396296711010442860124281536547293925765849196522867066887079713389864458761649398213200864641003965int,
    );
    let e: nat = 256 * e + 2;
    prime_order_cofactor_octet(
        e,
        (0, 0, 0, 0),
        (1, 1, 1, 0),
        45944287602624396296711010442860124281536547293925765849196522867066887079713389864458761649398213200864641003965int,
        73312526343220622567975057424525077424105069840832676575763047821676473544598501520739834194126276833867635177957int,
        49515044006327594354121657656788575579353939599618732818549561616710802254844220509237296140305414860782314113888int,
        205581230156944488715646600707402556901609134549985024075732403468883878205882815497053202940360984632589552202757int,
        6116780603977797757522985483203458093320546809216036941897582623679633569000569784457739784614020756978033392508int,
        42761539709995524798868490981759610981061057078813630730719770503950029085842849123319106069823873152849395530048int,
        252104011041461870017604731358264869944457449117821236571703267459118629186548970309835562781427463175807588741072int,
        17271421660866752649035484030429850372509972738658480715871001276025237087362864521058016502643686141195404000299int,
        169924114856589810945351518568270658450595923146326739041922974642607227823406099800235160598605537523592330065097int,
    );
    let e: nat = 256 * e + 14;
    prime_order_cofactor_octet(
        e,
        (1, 0, 1, 1),
        (1, 1, 1, 0),
        169924114856589810945351518568270658450595923146326739041922974642607227823406099800235160598605537523592330065097int,
        118043753694533565746318978523502607121384015887283009457106626380728765429941080175144286689742770701768453730775int,
        233533486584979310779885587219640216282432398151917801293743044098968587411896215804128263911294697389320536659923int,
        114837884389013539648297825230578659112013340789258304568648324548851204697121401052383523274096586905880816465357int,
        115309828066671494434693884893149114777565252936246687796802056537753339226706397790727697001721570472877604154369int,
        46152183896941481267893342863491225559642492380733479176915924217790878564701741549422704307749545878703959905518int,
        204551340157119193548630606220144562370056580983654858744792930330298641161345602156739819815949956258466829657741int,
        156035352876733053231857421225068390759606029519387247083624620055315047772945668187669349982519401268942111137162int,
        166849979028483559139810372018452310430403342593355181444373846852977406885801281700216874069956293940118521212438int,
    );
    let e: nat = 256 * e + 190;
    prime_order_cofactor_octet(
        e,
        (1, 0, 0, 1),
        (0, 1, 1, 1),
        166849979028483559139810372018452310430403342593355181444373846852977406885801281700216874069956293940118521212438int,
        152612595338658550748912664254655013636708688343936832059686343273438477505875430930939191062381278505949795893312int,
        95290009363718908986015769284583112308435462563775656053086851643127786954637966356532134922093667682564047925265int,
        72170678500199152587050505204961933743891736629981654850906234073471070014978688554430532268565201400961634953599int,
        36570846438389636300971575943331893366638905285277370706982240621269671835364620873610375498182626292801623823043int,
        159196710227437519778812817434736658777537730938369186325739660052465185220519030210924114105351011042488668157503int,
        122675383181344690518018481557758318307593595994333239632792357038759718475875875503356131096603488113802859124372int,
        70547426177861265188453431827422252928928168498498855126804192552237804360565983572500025524901372945883684646350int,
        168898289828633356352143537323166438536776174034780909049284694362336092401295908675842773832921026887355901608354int,
    );
    let e: nat = 256 * e + 151;
    prime_order_cofactor_octet(
        e,
        (0, 0, 0, 1),
        (1, 0, 1, 0),
        168898289828633356352143537323166438536776174034780909049284694362336092401295908675842773832921026887355901608354int,
        186073014032828185281527725093890128698851453987750029973885477420790057244983459218835767548283463422895856861745int,
        239028547629270395824544063179393499460445203836601635415485534802386697591624389563701252193799618054435268637683int,
        189057470545809049399540751509532879248638757027751187763664853499665737241949561987398530048756196791753689748400int,
        192681297894111817121220031879636577741682068468559476066211543592010665384115376234353645436085406382740157405443int,
        29581150884929330767349675883181644397983897207667223638327461187971334414764025967755059393706339346039083332900int,
        72989695980766771610673427421462809739122052775180654431761453460380687655524793556592409087028115428484835719925int,
        23164570989963151017220665897262148029775226609765343610036369503119785841434165091857313547260939160792584672635int,
        104006703394865565323621712382369423767225913302203418871499553328033981370168113385018081040483705519215572024454int,
    );
    let e: nat = 256 * e + 26;
    prime_order_cofactor_octet(
        e,
        (1, 1, 1, 1),
        (0, 1, 0, 1),
        104006703394865565323621712382369423767225913302203418871499553328033981370168113385018081040483705519215572024454int,
        65367678499837967266811007330863426028934567038407360280075245307363188240691083491784710372821642923566742857343int,
        182178332568514095743834477316850719775471379012602305480584341866924007033398360416887689089156063002637666153318int,
        195773690953632983716262133698635349524694429978286140779891508749287324330510758759836978656144702625391549226018int,
        86211089177456739651330812346966421679489505453528231502887008905333219908574509026198508332096779185578409546420int,
        150963814104813540978806207067455814777734196614491603101218726040623083400299466332325881870962736107824723458704int,
        56140565667674254323691411557372009478040282991910942940333070220048740488779182260766981652626686512933542083356int,
        233237414366849420927068941485199289853883752170308538066305631347627755350093019362092851489999335771743627396634int,
        29732028428837864100789689501624567200117044596781583571834472127695312175473499585215495611687696544882108009345int,
    );
    let e: nat = 256 * e + 245;
    assert(e == 12522088538535102151135625419509nat);
}

/// 2 to the power (n - 1) / q, for `prime_order`.
proof fn prime_order_cofactor()
    ensures
        pow(2, 3524654579752940305589650092018935831143120896nat) % 258664426012969094010652733694893533536393512754914660539884262666720468348340822774968888139573360124440321458177int == 256590383783555739391137058170499691507175025989212290832187055784356473985992233077981971714561029354572892842598int,
{
    prime_order_cofactor_2();
    let e: nat = 12522088538535102151135625419509nat;
    prime_order_cofactor_octet(
        e,
        (1, 1, 0, 0),
        (0, 0, 0, 0),
        29732028428837864100789689501624567200117044596781583571834472127695312175473499585215495611687696544882108009345int,
        120331399240165386141647952253537287947653473392563739339901715180304000081472246085317746715816557572237709084036int,
        227654005582459599922543154476914974766507128322907948719133764883339482384943508156983302611422280085485625610301int,
        135628690846977817442723251932845723174900390221800732386524056429852821033926180966640260107495625058283056846778int,
        45697786776980121857507599507435037390646671705929894618761487211655501278266998083749041764972481772359360678144int,
        27217220711007550115998199673327068506169725329432249493145430838240830403121334587532114257029520308910586221455int,
        66674961506690894955542612975342487725993590096691361593829710054303122750411167863892709883624366190996145783845int,
        240128890724900990226152621416372391985320804660684056734104608687282811030025836873761602154665003357217280404522int,
        243349807368999454100592618373561254765326484453773591510269875497338500407021322236847358317483825591919190135762int,
    );
    let e: nat = 256 * e + 192;
    prime_order_cofactor_octet(
        e,
        (0, 0, 0, 0),
        (0, 0, 0, 0),
        243349807368999454100592618373561254765326484453773591510269875497338500407021322236847358317483825591919190135762int,
        49230812132986279892356099912291491648474744691914760546577110908480278836971415954995565989526490756953783266407int,
        205173593787388233559979088105125162236625509364661276679678585169023926394675439267594223374168898728181809258639int,
        242990241513291074836294715906389561287499015235472600717910023674513556514251694204287864799938594452190058071314int,
        33931335639840437905307782856667025546009441710978077092038782035663527548982095437519281948656161501323298996043int,
        196930960974325708443838379580936742510873584278296126131999442390598107487530295813028025330642142146304564196098int,
        6248807674712892208636020937389869031156332489543532418092821372719096686161824290310414932668286549566243643155int,
        231407830246935920541146042963771790130511797930831466358081701777888235783512628038394509230610536275525431023432int,
        36688812128634148589294630829087412204090617379427574028278533342346736645517269429401922613815258875434415775476int,
    );
    let e: nat = 256 * e + 0;
    prime_order_cofactor_octet(
        e,
        (0, 0, 0, 0),
        (0, 0, 0, 0),
        36688812128634148589294630829087412204090617379427574028278533342346736645517269429401922613815258875434415775476int,
        109082223232453457383979554275486086090494358638050750051137888893132304148614244575396047309367887105158220711627int,
        125644212748725725959349434027570802602863584912487793530880178669228702545719523015349621286098360998523934811838int,
        141282616391218671741779538035053457345042995803789020001871637175122846792045637604043923001921341813307623717667int,
        35881555954662043177626665470614167781997333323933086888424024014599693422393075580156867968012416945461068532925int,
        180540647121854388252704460306813253570225789064778529541398443654315632093586422949932300883485898389176588708483int,
        109730411021097480682674190092647289125400389378847001076412592152934691280425733935244241770732758258087285343760int,
        116022135450311699477018168312322839359241878499467465710960764141799843986186430546659701013925153173286374435159int,
        15013806271993553211542848165907628857680640029915197055692695787027957364790146585070149301923223467367950186409int,
    );
    let e: nat = 256 * e + 0;
    prime_order_cofactor_octet(
        e,
        (0, 0, 0, 0),
        (0, 0, 0, 0),
        15013806271993553211542848165907628857680640029915197055692695787027957364790146585070149301923223467367950186409int,
        224573617765976367427643928126097149362043055659310268777421361245952917398001993429523507463918730786878169394273int,
        74890705592492953938880787542859691701870815294689070122855265702500208924715622224773056140084755735529762703266int,
        49690126724383319371892051242336671060993454915048449139745747730295349321062593877176618187292734965096599545145int,
        155055229019532482102179451313940637249909737967992886087634773200371339601403780166805585841728366052517329514006int,
        195252111528660130399374413008822035333923778422002050674719228303921569239842220869519137204704551952139265699335int,
        27452886179717812124008505836182785510225811639706033538378604694232186678966805557403474224534875875028764860794int,
        154589394237278148829544017028450961007170828274253357648898133709622981478979618811872869327008908275587997521388int,
        42392099580882753874696481233294452629824782131865611035409620550118285963897553020857866234942371498933818707588int,
    );
    let e: nat = 256 * e + 0;
    prime_order_cofactor_octet(
        e,
        (0, 0, 0, 0),
        (0, 0, 0, 0),
        42392099580882753874696481233294452629824782131865611035409620550118285963897553020857866234942371498933818707588int,
        81508281846111901164271677098704442463156210475044028846702464203376999768545177116727499779146868428907907154125int,
        107300831882852993008110279527816021384716663198946766144633452406032160812837988021860879557315019916079809232609int,
        236282331160612225409790712296211702288740453987885494638706560229621274027931367803513700868717769402905207336098int,
        35623685246840974303438372452551669751946684239857151175781522221045793168695669266129003704344027007692185748130int,
        112461756916207165411540845647712707115236182281584840107112706276682146680958014697914348032407428599531948436355int,
        249948823169573285311325465973178037166253091989158349961472687547953620748688442233185576667660363585200987552601int,
        45856064642315748760347139006378869490312119580352315989517546569080721046452270621164545905758372296021166778616int,
        175254213756143601321539594316781285461462939798740384840895316094492419169278803522504231786771714916745844722730int,
    );
    let e: nat = 256 * e + 0;
    prime_order_cofactor_octet(
        e,
        (0, 0, 0, 0),
        (0, 0, 0, 0),
        175254213756143601321539594316781285461462939798740384840895316094492419169278803522504231786771714916745844722730int,
        51571595200596859671043692928846284462934625135155531811306282163834403936664701614093078569689883483839164931754int,
        96856046908876619720617951756244135808060829584219574244891340888465945338498248739341243562908257791528441271703int,
        180611618009525590739214546191458358889846723703404208586450564037741289713308814384367539213632476816165826068878int,
        139313938362008878119254047028877206571948464636427606610325048820102181903507793366285298461199240675620187795128int,
        210166115629085989089460555919917802250204963480430722208946754130500147886409697951643297211120511567134233842858int,
        139337682897136123022215597949024739646525448900102821094880809201682154712071776347486214667634528993080842263284int,
        118515313357608297806447411397840961642802741993320594525177963904451475168708499981886764180619266495926901922048int,
        256590383783555739391137058170499691507175025989212290832187055784356473985992233077981971714561029354572892842598int,
    );
    let e: nat = 256 * e + 0;
    assert(e == 3524654579752940305589650092018935831143120896nat);
}

/// Eight bits of an exponent at once, for `prime_order_factor`.
proof fn prime_order_factor_octet(
    e: nat,
    b: (nat, nat, nat, nat),
    c: (nat, nat, nat, nat),
    x0: int,
    x1: int,
    x2: int,
    x3: int,
    x4: int,
    x5: int,
    x6: int,
    x7: int,
    x8: int,
)
    requires
        b.0 <= 1,
        b.1 <= 1,
        b.2 <= 1,
        b.3 <= 1,
        c.0 <= 1,
        c.1 <= 1,
        c.2 <= 1,
        c.3 <= 1,
        pow(256590383783555739391137058170499691507175025989212290832187055784356473985992233077981971714561029354572892842598int, e) % 258664426012969094010652733694893533536393512754914660539884262666720468348340822774968888139573360124440321458177int == x0,
        primes::bit_step(x0, b.0, 256590383783555739391137058170499691507175025989212290832187055784356473985992233077981971714561029354572892842598int, 258664426012969094010652733694893533536393512754914660539884262666720468348340822774968888139573360124440321458177int) == x1,
        primes::bit_step(x1, b.1, 256590383783555739391137058170499691507175025989212290832187055784356473985992233077981971714561029354572892842598int, 258664426012969094010652733694893533536393512754914660539884262666720468348340822774968888139573360124440321458177int) == x2,
        primes::bit_step(x2, b.2, 256590383783555739391137058170499691507175025989212290832187055784356473985992233077981971714561029354572892842598int, 258664426012969094010652733694893533536393512754914660539884262666720468348340822774968888139573360124440321458177int) == x3,
        primes::bit_step(x3, b.3, 256590383783555739391137058170499691507175025989212290832187055784356473985992233077981971714561029354572892842598int, 258664426012969094010652733694893533536393512754914660539884262666720468348340822774968888139573360124440321458177int) == x4,
        primes::bit_step(x4, c.0, 256590383783555739391137058170499691507175025989212290832187055784356473985992233077981971714561029354572892842598int, 258664426012969094010652733694893533536393512754914660539884262666720468348340822774968888139573360124440321458177int) == x5,
        primes::bit_step(x5, c.1, 256590383783555739391137058170499691507175025989212290832187055784356473985992233077981971714561029354572892842598int, 258664426012969094010652733694893533536393512754914660539884262666720468348340822774968888139573360124440321458177int) == x6,
        primes::bit_step(x6, c.2, 256590383783555739391137058170499691507175025989212290832187055784356473985992233077981971714561029354572892842598int, 258664426012969094010652733694893533536393512754914660539884262666720468348340822774968888139573360124440321458177int) == x7,
        primes::bit_step(x7, c.3, 256590383783555739391137058170499691507175025989212290832187055784356473985992233077981971714561029354572892842598int, 258664426012969094010652733694893533536393512754914660539884262666720468348340822774968888139573360124440321458177int) == x8,
    ensures
        pow(
            256590383783555739391137058170499691507175025989212290832187055784356473985992233077981971714561029354572892842598int,
            256 * e + 128 * b.0 + 64 * b.1 + 32 * b.2 + 16 * b.3 + 8 * c.0 + 4 * c.1 + 2 * c.2 + c.3,
        ) % 258664426012969094010652733694893533536393512754914660539884262666720468348340822774968888139573360124440321458177int == x8,
{
    primes::lemma_four_bits(256590383783555739391137058170499691507175025989212290832187055784356473985992233077981971714561029354572892842598int, 258664426012969094010652733694893533536393512754914660539884262666720468348340822774968888139573360124440321458177int, e, b, x0, x1, x2, x3, x4);
    let f = 16 * e + 8 * b.0 + 4 * b.1 + 2 * b.2 + b.3;
    primes::lemma_four_bits(256590383783555739391137058170499691507175025989212290832187055784356473985992233077981971714561029354572892842598int, 258664426012969094010652733694893533536393512754914660539884262666720468348340822774968888139573360124440321458177int, f, c, x4, x5, x6, x7, x8);
}

/// On the way to `prime_order_factor`.
proof fn prime_order_factor_1()
    ensures
        pow(256590383783555739391137058170499691507175025989212290832187055784356473985992233077981971714561029354572892842598int, 766197808759126nat) % 258664426012969094010652733694893533536393512754914660539884262666720468348340822774968888139573360124440321458177int == 205557430513994911833042208212056987197339629380395742594324596991051157959498263375184892196480339161761063592131int,
{
    primes::lemma_first_powers(256590383783555739391137058170499691507175025989212290832187055784356473985992233077981971714561029354572892842598int, 258664426012969094010652733694893533536393512754914660539884262666720468348340822774968888139573360124440321458177int);
    let e: nat = 1;
    primes::lemma_bit_step(256590383783555739391137058170499691507175025989212290832187055784356473985992233077981971714561029354572892842598int, 258664426012969094010652733694893533536393512754914660539884262666720468348340822774968888139573360124440321458177int, e, 0, 256590383783555739391137058170499691507175025989212290832187055784356473985992233077981971714561029354572892842598int);
    let e: nat = 2 * e + 0;
    prime_order_factor_octet(
        e,
        (1, 0, 1, 1),
        (1, 0, 0, 0),
        59808498296237933644429934092402767461292694184354291462125475051280283548414764030489915344821685704305819805779int,
        144570727836195427969967282678501207014080129981798762005789918323585229230308198165582499656662911753833158922044int,
        24921866817425428183535342984344352560539031659332807952993235527723671884437603012170150567812809892214131974268int,
        184981759081976994364268040282049999305075040923508684620263437765797088843886384482042353230710327874010155900165int,
        179891463052288232736016251132473175661701021261999921206192020236156709329176129685674563091740230957716154351263int,
        167561434340907518391964947116287908909800285092331913335308383847336325292388987307289765360434988141474956848036int,
        27534634529336512804511768554668951203894462628781618342995430273874260882630927938564880673206909420011774893366int,
        205234832950127253084898744044625981521641624559994575696543823610806542836038648189825129987403516658801917327545int,
        176531985957242940201557657512906023229657001680938753036272110023988360878255610042968280461864402891618535789100int,
    );
    let e: nat = 256 * e + 184;
    prime_order_factor_octet(
        e,
        (1, 1, 0, 1),
        (1, 0, 1, 0),
        176531985957242940201557657512906023229657001680938753036272110023988360878255610042968280461864402891618535789100int,
        1031871359291182614123181137227881166466580372906461907522813660923408066799358983191607718150649068600787486656int,
        10746295596110948744229344547374953256517369284298269544537779827155824756850515023016579627015476844861772162033int,
        160642232047106218946263769205554933444551031391518038015799268679077726210286298164897422113926926042992424465570int,
        1493519886296289303178969596743765417913600849054384604798520567416010527621763366001964723193963266721623777770int,
        154281005734103610327962980363647520540587760024723204975785105005293122664632654030551370131742994003746901507853int,
        229822570068102019361016928054283668455726911570763874394159392729783417680817293409244544683677366204167574391551int,
        184323244349106776419000775191890014119154057117208008355109748861272344505664113747811387429796805995596052525602int,
        107164552799883623959809151096318237340271434345614410687785283374152806090142717411828655493034128534857497751630int,
    );
    let e: nat = 256 * e + 218;
    prime_order_factor_octet(
        e,
        (0, 1, 0, 1),
        (0, 1, 0, 0),
        107164552799883623959809151096318237340271434345614410687785283374152806090142717411828655493034128534857497751630int,
        22969702916106921329719518217981726911660319550047896747678173233745957998803535936198591555802608301211097919201int,
        169754582950273886587285658019142021748699282596459091450741737252418741306985239941685686171294083343807642093689int,
        30264489290213992252623242480974978318120607406491869696669357690946992486268806401123852995687631018571244362051int,
        73623829679757719460279320481892532817435284699107392938544940703327203038422934893882137298476916374795049453572int,
        13172162030564666011657796931748326793087611628528074000283910010532212068876549335538571956754428340405605746449int,
        75191227600557761767131263064288457045034301414447528466914575488063425566760355136743665742666187933618995413167int,
        150979837934753986896096702130117294450371852131419149709675583932277291665022852017015736836605218274543970333782int,
        198913041053323100801402722890682932633175543839880011957910279227524185316620093286798208862178284947692513657350int,
    );
    let e: nat = 256 * e + 84;
    prime_order_factor_octet(
        e,
        (0, 0, 1, 1),
        (1, 0, 0, 0),
        198913041053323100801402722890682932633175543839880011957910279227524185316620093286798208862178284947692513657350int,
        199124212094602315697579806361172711333767827966476434059004786432555312207082413241704777111555362246966074114598int,
        129874399018638478258158108322045357086240603117899631560661719727513811153364230951740747104125870146297692814328int,
        18657495612509375303919849176333619001809767282905341708269162261476975718660751431647598891344344211396294508011int,
        220626447515501334643265452877455788416832364982553769893800926886887371956598052824963370597440755059796576766342int,
        210709429266969532919463531747003245830350691769324353378144427884872380009733801654927896979291999190135860692961int,
        205279619281362915938565858051378677856855633212869912700018813431632060400994514039329180752974484440948903758377int,
        158223416346685626924238746695954023387925104188042707817646679773037209106970594718272451277890132168952895402422int,
        243330702893730822325081708836894097253744975039481401389374086001633225198991215787137663008135061540881048622469int,
    );
    let e: nat = 256 * e + 56;
    prime_order_factor_octet(
        e,
        (0, 0, 0, 0),
        (0, 0, 0, 1),
        243330702893730822325081708836894097253744975039481401389374086001633225198991215787137663008135061540881048622469int,
        212132260904076071246092027335054455419406535568677522630175059805591852979905149606466743229705104415526719175021int,
        137725904782132212024453769330865144942992592689358726858328435406952861889587294032172137830390887885553072976421int,
        57987918033035973150889692713669030750836360659308026155762851352332707039197242111785565147644311646880904125042int,
        204386245221233341006789109234520992100398418264749286003626235512688200120916041019382120735612556119378474760356int,
        46105902251322347259346452540496832782432339578225744719752479491175287137055758032090058370776239497136488155376int,
        184141496098030961519137104756594331164236004168833307096934264979640151401320991014502046835889564422183239522403int,
        198352466003736553393822322757070144947956952523305605464308577385910691620790457513269731979041047304929561495333int,
        61118030070706456560418923675935644928780695095214257176621299321876780251202039677492221920458375452552642364088int,
    );
    let e: nat = 256 * e + 1;
    prime_order_factor_octet(
        e,
        (0, 1, 0, 1),
        (0, 1, 1, 0),
        61118030070706456560418923675935644928780695095214257176621299321876780251202039677492221920458375452552642364088int,
        122945587831103355641668981891790758878196550764612901180939995994538423563937612905895955162203990297639505903522int,
        46482133354072951249084917483224786750689538741201183827174258075883876288085675967211201609880696805747690282118int,
        160438922181289688793182491040146122094136080468584361953947154870550973778470532448015686694580892033232711653099int,
        184678859526245083224270632340286227804572481172427305689945732662459757218069740594324940307399982301978777869146int,
        256686013700538474856460847456055186233970883677189809762536607668852973540724478166340284911516279650848652769316int,
        83078957213067434869542342071268628474976022087906575000107403900420216796914181216846263794481119268858513106690int,
        197372655686218058316743852339604472095968722191599397749969457739212326303214110302861222047762165268074822163810int,
        205557430513994911833042208212056987197339629380395742594324596991051157959498263375184892196480339161761063592131int,
    );
    let e: nat = 256 * e + 86;
    assert(e == 766197808759126nat);
}

/// On the way to `prime_order_factor`.
proof fn prime_order_factor_2()
    ensures
        pow(256590383783555739391137058170499691507175025989212290832187055784356473985992233077981971714561029354572892842598int, 215665510376230700765485079297nat) % 258664426012969094010652733694893533536393512754914660539884262666720468348340822774968888139573360124440321458177int == 90730094033506690745821029951582223172740173246933283456115761618346283909841175974246677935261932982620857004042int,
{
    prime_order_factor_1();
    let e: nat = 766197808759126nat;
    prime_order_factor_octet(
        e,
        (0, 0, 1, 0),
        (1, 1, 0, 1),
        205557430513994911833042208212056987197339629380395742594324596991051157959498263375184892196480339161761063592131int,
        8051361064151187521229827597750373159342111411775277093791319836652094061105410754989313665245225856997071172468int,
        178436343165387132031763803436331690871551835479370538302086006797996192009272099105836187107501935917211503741131int,
        168740380790129706946139100157899179814906490276242223316858040263116362728678302687048095776608076402103019744942int,
        84542866853846103800540487566491544705977434084408140749121849880439704187583210020971647422002415782443192331173int,
        108646331552852364120946498696887926534305777114767373483823856629930284695021170200089493394664940581464643371659int,
        57960509019681963045890203286342836992772401168537406729743979891358087775147220820849441968121095620319185596479int,
        59616102880775697209069206003954532933688103176315043820291938069841545571626816522973461872856933290053358791155int,
        46169367229330623026785855890560669841027907896137372550354701384722617978263946333470833306723262307560962531228int,
    );
    let e: nat = 256 * e + 45;
    prime_order_factor_octet(
        e,
        (1, 0, 0, 1),
        (1, 1, 0, 1),
        46169367229330623026785855890560669841027907896137372550354701384722617978263946333470833306723262307560962531228int,
        2772906422467815061915645131847326077998234987133924762637238289663461636389325779185708039619100879670321562614int,
        123995543784901724813599406124312941418589581437476705728435442517687475495481670817870229952902553772640900179089int,
        44225470946364076275034481056525307480665252311644246190021139605916466057545467364801280777422707667511675981263int,
        87821570712839024828559729832863267689358369942056660257535805725675287100918205461198931932822995402684722411586int,
        16670600694848463457814897923957875703430699495295591449755865327952326139462844621651734127268483210870675317645int,
        14645009119213256160168426467924168276769588807473034504865985935038268743892033052457726076497142626669395212337int,
        181843356755880345631649789623331808066512153531860260589446334224593899314544903933181593288819605174531083084499int,
        119412139140523288783319771364498290487761958237068239931058844383703573038244681777144187355428345928770779874976int,
    );
    let e: nat = 256 * e + 157;
    prime_order_factor_octet(
        e,
        (0, 0, 1, 0),
        (0, 1, 1, 0),
        119412139140523288783319771364498290487761958237068239931058844383703573038244681777144187355428345928770779874976int,
        160325572953089629005792890010761946172991622351602535708074566299549061880196127105878531156061647981556850179697int,
        201347982644272894161269131238320537919768466025697121310017867826554587060577030677051785412738005905161894413416int,
        238568973436605467532183611695808549120240481944097410136962249813128941152144471623423693102167490507254896610267int,
        167677320095268796579561727460931515907411080176616457292620903508947508625405082486946508301278110366576497518151int,
        190556413975202940090663393569455862252209663358140605043990703539988498585278225516241501157162505072107942374027int,
        216794442867392823969501517189088290763282336613796124316864267939616573725242412758771271584255541422511466533678int,
        246078531619390426835787834150098088195161397307494852715226494835234919811030104211374271685111781404978383357778int,
        111677236448414782849316449740906869870384289488945745801912346325002042079010064326147825359208243519728933714199int,
    );
    let e: nat = 256 * e + 38;
    prime_order_factor_octet(
        e,
        (1, 1, 0, 0),
        (0, 1, 1, 0),
        111677236448414782849316449740906869870384289488945745801912346325002042079010064326147825359208243519728933714199int,
        196471793309697864808513842642988614974108042602261950676790764823611624813666353954493492460710283116634984012583int,
        251634023791455662455171166473934111301773785001440002797594478524985557657774239214549893236829847668878978004182int,
        196452329183989359968060783638043519045896421778459135781208608298414347876592285273840274107487976517028691159396int,
        221002160069322769409844280962924756295545949278967293778155899194721418246825821072242565302025076185026292048268int,
        88238427176587832114079715033585022161890713670444652218384204298482175125372158651799015444273346360930681303895int,
        103391173866689937058214429434902991929038561435163750544659363709880914870518662942432394297546489169179186101703int,
        187455926823506507140197666296687427265827542682270087312978178374433570861711574935676466254183506256295149301619int,
        177192312013736995764904215805102951441811753842089131926183743618557698980412970334777173641991825677358512907308int,
    );
    let e: nat = 256 * e + 198;
    prime_order_factor_octet(
        e,
        (0, 0, 0, 1),
        (1, 0, 1, 1),
        177192312013736995764904215805102951441811753842089131926183743618557698980412970334777173641991825677358512907308int,
        99918012627808071074783868345254931935246190603272253987217288584890203563642076653938498112187538355656161700779int,
        45290902851999961771768890922706720374131760657033580484451792630541533961329570982673341568634006844980817211057int,
        84766820246558869984463924478005222753067725406746442552152764628853077092216261250516170456026579037497688789216int,
        161868855682272770780392969687642213728777197755371135157807045099552057670039307101062785196096327458985017984924int,
        239756954480645156369179227239247217709540712561325460516079747313074672753772314136336420864182512466137326955721int,
        199626263807491335562491854539753009245524615947079646825671183792253101491318340525081004845285587797662082055751int,
        200537240307786142039273437218283355874550925399163557384298479743822065414892231315420940218636615677030952579442int,
        137791099160010732043152868153651909052227696677851055102575813193419206475952815435246137275092658954666256103802int,
    );
    let e: nat = 256 * e + 27;
    prime_order_factor_octet(
        e,
        (0, 0, 0, 0),
        (0, 0, 0, 1),
        137791099160010732043152868153651909052227696677851055102575813193419206475952815435246137275092658954666256103802int,
        45390323539412323878082948770057948704642029017139696114734777200560813834982590169981606290266243675008300185764int,
        101807879099118999249125167743726248681264770449188951580984348071935515537784481095398314767444199972044625755256int,
        90139971814010329707324239863837216778843443540465499340386446433413804468990433424111064933340203601147070814408int,
        103354827111577127854226012639614463112296567864876795254500793165151201004089548273634154402591268618415529825000int,
        25537134928888582588337360464379051213025405789872324074107010193749520281627950304558225252782428432734735517302int,
        183652759663835840513202228099120118425736596155499185745167357001638361133848311232830756224985085828257741184167int,
        11395007509250513654094802968804320106749828490911885889914828586873508177882657433141470736436099450986616838816int,
        90730094033506690745821029951582223172740173246933283456115761618346283909841175974246677935261932982620857004042int,
    );
    let e: nat = 256 * e + 1;
    assert(e == 215665510376230700765485079297nat);
}

/// On the way to `prime_order_factor`.
proof fn prime_order_factor_3()
    ensures
        pow(256590383783555739391137058170499691507175025989212290832187055784356473985992233077981971714561029354572892842598int, 60704444510441276410358699206949400939707570nat) % 258664426012969094010652733694893533536393512754914660539884262666720468348340822774968888139573360124440321458177int == 148223526187922649157847377870841223181016104446255111299842818010983114078537782994076427345605327614916572507182int,
{
    prime_order_factor_2();
    let e: nat = 215665510376230700765485079297nat;
    prime_order_factor_octet(
        e,
        (1, 1, 1, 1),
        (0, 1, 1, 1),
        90730094033506690745821029951582223172740173246933283456115761618346283909841175974246677935261932982620857004042int,
        142185447591087953809192797011539676275743328384946318504223881640702610053199886215547689947286686774765104376506int,
        92218025870458811828969067946020105683645513695020885115911535767407849686199519833829524371286630049993516784067int,
        148473041363070271959730654204117971151635469772708907484979709422814925616900921675561670471651171524804191961321int,
        242818487799864471343449195270853126028120731913055293087558816577451226932810486063779860189575782700806693460195int,
        5269832198018652029256991908673997769139099663522357905609625844413964769282657209471468145794450643976367049439int,
        159443885414754630969487807251853684035799645587114571454877461489590558120169763477704843260454438595317262542771int,
        79384329364110342522891157684978659644044058915442596341452862636368553952664823218849519673271585745571361864106int,
        111915864852878430069187967556178605739853976933214269756081456236984084317302354771328650173110390973951757505450int,
    );
    let e: nat = 256 * e + 247;
    prime_order_factor_octet(
        e,
        (0, 0, 0, 1),
        (0, 0, 1, 1),
        111915864852878430069187967556178605739853976933214269756081456236984084317302354771328650173110390973951757505450int,
        82166220469567993992644449528468688714377138082758484077791783422657597098048195410292541111887142029416750766377int,
        211550145107237243634430293498519969955472936446900864064872232989120544441488534544676413199486722836319701367855int,
        138814236293877772362541550667457252379245499515173324011081891591307485441649760798683616880978832816583074900960int,
        212644591072549379696802702961497445486367983102813442745948083994392151411797154682614281714186536274538683250175int,
        27948037316575648360473748469641603902420292638198776042059483747686677824410615481566590675811447789900499280452int,
        86862178166738196883058993135916748039139351204243118797644697807171834740874825727446632749268614165383202073941int,
        207145944886280291674745829487867008483850447694545986110431455696351919343281121559387986627858869673716857798802int,
        233075536362165316021437087944982041877081847750995569336537211059947681062968775075724452086013640375467822251265int,
    );
    let e: nat = 256 * e + 19;
    prime_order_factor_octet(
        e,
        (1, 1, 0, 1),
        (0, 1, 0, 1),
        233075536362165316021437087944982041877081847750995569336537211059947681062968775075724452086013640375467822251265int,
        77734016239510589849793394799037401434223107519189091827832965253746642371874106047689935803321412568265688649341int,
        147785897992475595588707396526047983574447870357778229498940788334200996463517810492720993046762600600687777789604int,
        246569509432880010677900901551603720754787490907971365628825618461054241829475387681725685475482669230156707768372int,
        185961837173846827947803795637984058842114862772371876276574678138984953839569893893662787874000484190151014124081int,
        140036121688698954582642449101452613672458410026018911787982350857193667456752785221321277807874724187478112926110int,
        34016963583356913216624995116484896916382672740529317734836586498771342168758942920617490898296160023094126360450int,
        135861555295181247779815753591995144979133940001248145004895691715926079351329710945690290459427031083585075991244int,
        219975674043445027462132689842865533652752345821945736126832303139224612655613376143504433693731971576148636323193int,
    );
    let e: nat = 256 * e + 213;
    prime_order_factor_octet(
        e,
        (0, 1, 0, 0),
        (1, 0, 0, 1),
        219975674043445027462132689842865533652752345821945736126832303139224612655613376143504433693731971576148636323193int,
        256445248168846512504851974988946359030708414405687409897429157473465070544342619721862121278503628785326757371459int,
        58628944593088712839337129891123866449954772662194672812356052133550297308397605924364218186104791846941751586801int,
        589265104913134654017472850783713944408854243735875498430041572320965767695200400832741022223850244839544414392int,
        189360674889577705796731786350017696834602943900213567376956437563152919002619426888844149840226610974530719491611int,
        188306491367558228973879195590221743575756103106944659630095148113708246608614349870529279203108459665427278220817int,
        220028255472702300386986176578977639837002980695776761226644525462312419788722318935924942976746536575979923741394int,
        234540967230770148307892952197730793045226480598682437386851902682823573973504505813848019832575136187105803109720int,
        224446794842024996870830137372820849409660601784779987998700284443631696358362586763168903467602798037999815987136int,
    );
    let e: nat = 256 * e + 73;
    prime_order_factor_octet(
        e,
        (1, 0, 1, 1),
        (1, 1, 0, 0),
        224446794842024996870830137372820849409660601784779987998700284443631696358362586763168903467602798037999815987136int,
        158172001113525597419650146019504891393654861443693268685253122553861374266116813797827328875223720005866059233686int,
        170340931000435509494176860276118621593503930480990738162969952005169923960927783926953165288745433066363653366276int,
        173510845886442658753639914623711022372519756950519363192343862253358250648854583970908282904406220031451197972244int,
        59556461926040862469488049929517335781917441494879273823295185297074875598450921663195901936101681054975119096499int,
        66503084233303127937119415472111364042024362650668594262988542147528999368249607538088316757272354463087102163291int,
        14975513139979010192620981436204958527358576689642563235280764889629822481042235561129015832186912877095268978426int,
        253295312645631790273129610684748400657141011688525594329135087733663813474161582430039964203769551461262088060584int,
        115255231856456033334178508030621066900114104476662229721788947475362044932879220151170486801100007878694979172585int,
    );
    let e: nat = 256 * e + 188;
    prime_order_factor_octet(
        e,
        (1, 0, 1, 1),
        (0, 0, 1, 0),
        115255231856456033334178508030621066900114104476662229721788947475362044932879220151170486801100007878694979172585int,
        116533904789652836037434407735186446211909873693899614380603995316343487898889114326733160485945988192819717677837int,
        247928136931509320890656233503451204237081884198619065110688482831808003620453766777716830934024364994468898982359int,
        208949229026912855704173995182844388360221229762598691242335617267220506227134483792230047397917718390970212771007int,
        150758540814900585285009109250008596497978743100230195742773171514067627447663262420673432361984682399290342254800int,
        254656895955373490498817273376316240950692222811882983038091753176110076770340948027144750846454764375842076182789int,
        73163726986911050405934400011778613409343615527919704188457098354447371594752757028829947385515494931608965553400int,
        149024280927664936493933382591118825243261696907253673691272271135242537682173681034596805443550267658485087717573int,
        148223526187922649157847377870841223181016104446255111299842818010983114078537782994076427345605327614916572507182int,
    );
    let e: nat = 256 * e + 178;
    assert(e == 60704444510441276410358699206949400939707570nat);
}

/// On the way to `prime_order_factor`.
proof fn prime_order_factor_4()
    ensures
        pow(256590383783555739391137058170499691507175025989212290832187055784356473985992233077981971714561029354572892842598int, 17086782104809767745027236739347173406332399392468246737153nat) % 258664426012969094010652733694893533536393512754914660539884262666720468348340822774968888139573360124440321458177int == 57486829337049971437881850658288977013414496451519422123337599577714239238689295996377130466829615087573096907102int,
{
    prime_order_factor_3();
    let e: nat = 60704444510441276410358699206949400939707570nat;
    prime_order_factor_octet(
        e,
        (1, 0, 1, 1),
        (1, 0, 1, 0),
        148223526187922649157847377870841223181016104446255111299842818010983114078537782994076427345605327614916572507182int,
        106488229137249676816375731687337709390337676879674400935952788744822174208574268718011882670702374319503027072159int,
        198133585925351263003745859294895285981019568198997385698382458678170374687542023987373636684091437420396493404825int,
        19959567643211989984707941725860492284971089231278969644019821041523446951069867838608865171252509327231284463792int,
        76727029567306830620090242665288988024495815340718078126336981325910070504097786408535027372705190993801217413732int,
        186418156535664372924725432080216156674754086563332612619097641889937155133452763986842148020057199897789715467018int,
        159176968144181958996464904180598633323236184157945891240905244478050898383321480094574625333889452147879150732460int,
        72765883438760336483269004219661970451628952452687274699399243966148612629215682076529220842748224261689720696971int,
        222712082711239098822324395730123455916480714686441598520260482836996907699231779580816368544487556768373852200355int,
    );
    let e: nat = 256 * e + 186;
    prime_order_factor_octet(
        e,
        (1, 1, 1, 0),
        (0, 1, 0, 0),
        222712082711239098822324395730123455916480714686441598520260482836996907699231779580816368544487556768373852200355int,
        194051174964269549615803221755389291385507969212251389910743619112124690733562773905447730682399087281203955174078int,
        157218095806593309932079287419950485719607587119511304913268216501632098121292533597039013283051165483775862727074int,
        165946562322647454465391190505697484905501230289440665940419688030888463783170871313788558781235550553629507111481int,
        3851612202226537348211757957148506255708890419913140163601602257508805333595729934183630117931556190242061842935int,
        39976078642781611152589357074611118093514127646790023479598404970044995372102240407213322292666174660253005935933int,
        101336171686312244671382096977131899988094753017204749706068566200428893330929759681037702482183608488223532100110int,
        39748426072150283307851311640486229770191834937391481333964343289860011743136339110926718979741167104379609924496int,
        249751712016060973909719825149805471327424387174702675064637663225857630805614161600452438183928577171745538765825int,
    );
    let e: nat = 256 * e + 228;
    prime_order_factor_octet(
        e,
        (1, 0, 1, 0),
        (0, 0, 0, 0),
        249751712016060973909719825149805471327424387174702675064637663225857630805614161600452438183928577171745538765825int,
        219675401128666015501180044599777123895506424673172689017162310974221745035611987532315171825136382756566736260396int,
        168700321947852423180847170721766016913970103582261089608888398873136278075312468915053774399235160891650917928258int,
        197032407730775657911359722887749900416670877661584278991590922338834278198680412634888245665381013496263184683448int,
        124998282621654826756128813236465736705716512819073545861224827201464600466952154837382067915435396038323355313914int,
        243683831270994383432617205621226263363132686935721947889066692432589133622558220889923415516928793676230169237958int,
        54462647346695688432116286619115829075524037868330252852715730450085994130253797157830616854853146254904328149709int,
        57747006827695296181870810685166957180855770327086397295995839165836164470907729017965357379923430066839014408621int,
        127257390840912326717167847161338161259256618304942373145932963995817963806742040068397413115106907504229925925976int,
    );
    let e: nat = 256 * e + 160;
    prime_order_factor_octet(
        e,
        (0, 1, 0, 0),
        (0, 0, 0, 0),
        127257390840912326717167847161338161259256618304942373145932963995817963806742040068397413115106907504229925925976int,
        1457152113942121250412540942775570748073103689615037148557785659097022018350056052014699734801826491919886513134int,
        47553815719548189368711433055873566457458466749227199123618640668513935723422087409107398812991541245725683968733int,
        216371899696595021272130040369101856975346361082937600488489293801345741389024245946754994661130925846638355335030int,
        112006963460756487885827876872612477475319605231225225450229988343632442669523886194978637385494188642385473523278int,
        198217087849801678461060116315094145114123756073332290176975918210236079797125964227508113754279146895280671225770int,
        121450088371911885220838732238808306957009901989083454908430072166635149069754657651873768440693320008969380820232int,
        122867619570897229325207569180868608045893050986020353615268106102332258547559909075344812537443451037656872797039int,
        162664115132416781885923358845310102449352428139894761352566497278601932651349484331330646970969483400337582672987int,
    );
    let e: nat = 256 * e + 64;
    prime_order_factor_octet(
        e,
        (0, 0, 1, 1),
        (0, 0, 0, 1),
        162664115132416781885923358845310102449352428139894761352566497278601932651349484331330646970969483400337582672987int,
        18517809889924092629900455735623727907289431616615505677559465484596158447839376747218318727245642778289568132382int,
        246812919441312080820917889539279181854956719873856421979164980460261472712909496045649710489755482997554062690396int,
        201559013262232987009695781922141802576317937746053651073806125897853367059341371935262362522275319575818184954133int,
        173655196425316204033225320771016317087786047504387974832577456144677617603712528234373410780756818954962463955998int,
        51366388960421170826606927654383683290229218886748319667567213911796446144627780841494706548827980827229227242454int,
        211533356027993732373871823093294443237438472935772994623113843762270640094850735528931232226716094161737750460714int,
        145812888633613931894755835195794431788503611095452650892325727831786924585485172966774129231065623565903044640327int,
        242754245463709747216068745546831625179107810740602175858551684115712641544304271482736204789070852654469831381878int,
    );
    let e: nat = 256 * e + 49;
    prime_order_factor_octet(
        e,
        (0, 0, 0, 0),
        (0, 0, 0, 1),
        242754245463709747216068745546831625179107810740602175858551684115712641544304271482736204789070852654469831381878int,
        98482200189520146914261066602781259320511753215963819234409204859260093533123589402556666386106247682373748418748int,
        172100019563152435577362718438044937073692116104807917046663214243344287486336496891047182244038216256009297995811int,
        245763273051498355969660218019517545284111370251387321384390102928865999642294020419409522460620704102374971413329int,
        106091396126516625734584285427773389876920990032846433086741426749549249144554429451065796223667313081779896901435int,
        73550787731972538527021089923618974513427018379026870877214122886915739655657006026390290686032890277650779323146int,
        150488964231956259991387244020554900841172566962401651733681549550591312011237723546157065042256225417093305259845int,
        25775333871661156805209238095013358533932267202886186887707849980296838565106270746843318020584302570636848620850int,
        57486829337049971437881850658288977013414496451519422123337599577714239238689295996377130466829615087573096907102int,
    );
    let e: nat = 256 * e + 1;
    assert(e == 17086782104809767745027236739347173406332399392468246737153nat);
}

/// The residue of `prime_order_cofactor` to the power q.
proof fn prime_order_factor()
    ensures
        pow(256590383783555739391137058170499691507175025989212290832187055784356473985992233077981971714561029354572892842598int, 73387170334035996766247648424745786170238574695861388454532790956181nat) % 258664426012969094010652733694893533536393512754914660539884262666720468348340822774968888139573360124440321458177int == 1,
{
    prime_order_factor_4();
    let e: nat = 17086782104809767745027236739347173406332399392468246737153nat;
    prime_order_factor_octet(
        e,
        (0, 1, 1, 1),
        (0, 1, 0, 0),
        57486829337049971437881850658288977013414496451519422123337599577714239238689295996377130466829615087573096907102int,
        243763749390770139566869069978297888288812359100777056043983490673401777448612327600631555519874653489198518090175int,
        92889720223002160795203706555053407578404099297267728312569219414598327691947951655928580771017394825085828001458int,
        250195966634236290249519022177060687313398012289802417902094054896971272154591381417484652601400186063300588156219int,
        37235199023918682748704657379404161838050371476729784900851615419531596490582177569927645503004388823256971395826int,
        41730901863650620211332980787686594297445827185171762097873971473174025024368952306617392308917421109869014295539int,
        229306088687457561459548099856474831670829334675863682865634530100377137719556724913078753092301407519094962621716int,
        53870004897516074660580264504458200751100558417064669042085195343102935349236785062484278261278432292287457684919int,
        51403421791231181689311595652223784283163578743958920407422725372586853825569553299565285871926936377943297024210int,
    );
    let e: nat = 256 * e + 116;
    prime_order_factor_octet(
        e,
        (0, 0, 0, 1),
        (1, 0, 0, 1),
        51403421791231181689311595652223784283163578743958920407422725372586853825569553299565285871926936377943297024210int,
        216615639688071410320693906250239571271954992883406581808128841002893431369174050071772469579216091223105804433199int,
        205032721446993044606281400532573845674416349141610131148395732643708124935673240554311154818906687160231909077050int,
        2493361762443666625916159168785264426227610035805410588836193669705840948192522472593482348122393924708648613748int,
        92186291026382547046963015213648273068091179922548096988108249949842162877169177474201640853984670525992728100698int,
        109382741070151516725846002633043171632490481034671139224187114556100569189424191923383541912863599162603082462273int,
        22051216365741867084984717556606576104284561658662242955911283276740695661198470601619392527543065592579673013657int,
        240197284912170806778183835646399043545574968508815405341010667895090866413838228135433967030909354130562971011635int,
        217174839938586291380869246657045332745673595266340309639987280442622086080068420096332165692299887569836612471021int,
    );
    let e: nat = 256 * e + 25;
    prime_order_factor_octet(
        e,
        (0, 0, 1, 1),
        (0, 0, 0, 0),
        217174839938586291380869246657045332745673595266340309639987280442622086080068420096332165692299887569836612471021int,
        203008139161219640131900798000463641559215705893768674434828488570624397384462601565830930857636976044657581636556int,
        233458864548472023429504085322638577103749954310986194753633749666970066777992056705353146499590027187036380261582int,
        191259972747041523917135053121216742115791345569294645882929412522174981135693754375333786163206272000688515405657int,
        219054151038931560140462195750366469682988200618090651834383135545882164931031109118823642448602257334352315953383int,
        59367585647002439611871440870813575936017124955571878348610310208716300239804432141740166709120904282619858449493int,
        211940769790348408061980175392137036703708343112616644105305859443797343675585387489536163993489988464282603663021int,
        231409681911113951085239642693958575358742522344386435190674834937563721429198083392777405442372656224854277720180int,
        68557201593404678099280354871071485338399260631896114683067710358395430092642378292556247190438881145501092850154int,
    );
    let e: nat = 256 * e + 48;
    prime_order_factor_octet(
        e,
        (1, 0, 0, 1),
        (0, 1, 0, 1),
        68557201593404678099280354871071485338399260631896114683067710358395430092642378292556247190438881145501092850154int,
        41241665129289832040286162733412367993678503578549065611695585193280186616521437363064533832969825452776841346103int,
        44411178759142961936274456031375228167211384948662532995287369803553293948844045090450391640122607117721921770525int,
        80296311035843655283960103041181435851541772645050830402456693940301892530641448089984148388467271729840392336308int,
        151008233459372415836829330352022200718125905551237432887253252086098241954428792345623839109111920832600827615936int,
        764304559495088886946595904257213147239025779881931637214891288966860737467682048306374735487639509632070533865int,
        124101894425898159519944274736043840444253644504074565814188806519408247246202265296152356455226002809889469086126int,
        55394059008299320946094226715290026832595478355014133415104740453425150669536942222232703724014616962031431014482int,
        1,
    );
    let e: nat = 256 * e + 149;
    assert(e == 73387170334035996766247648424745786170238574695861388454532790956181nat);
}

pub(crate) proof fn prime_order()
    ensures
        primes::is_prime(258664426012969094010652733694893533536393512754914660539884262666720468348340822774968888139573360124440321458177nat),
{
    prime_cofactor();
    prime_order_cofactor();
    prime_order_factor();
    primes::lemma_compose_residues(2, 258664426012969094010652733694893533536393512754914660539884262666720468348340822774968888139573360124440321458177int, 3524654579752940305589650092018935831143120896nat, 73387170334035996766247648424745786170238574695861388454532790956181nat, 256590383783555739391137058170499691507175025989212290832187055784356473985992233077981971714561029354572892842598int, 1);
    primes::lemma_prime_by_one(258664426012969094010652733694893533536393512754914660539884262666720468348340822774968888139573360124440321458177nat, 2, 73387170334035996766247648424745786170238574695861388454532790956181nat, 3524654579752940305589650092018935831143120896nat, 256590383783555739391137058170499691507175025989212290832187055784356473985992233077981971714561029354572892842598int, 27293281850089373438813138085587747214543044622960983218354407816531562580251628128024441758217456919797874399298int);
}

} // verus!
