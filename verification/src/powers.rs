use vstd::prelude::*;
use crate::d_float::{lemma_two_pow_add, two_pow};
use crate::decimal::pow10;

verus! {

/// 2^64.
proof fn lemma_two_pow_64()
    ensures
        two_pow(64) == 18446744073709551616int,
{
    reveal_with_fuel(two_pow, 65);
}

proof fn lemma_digits_bound_0()
    ensures
        two_pow(3) <= pow10(1),
{
    reveal_with_fuel(two_pow, 4);
    assert(two_pow(3) == 8int);
    reveal_with_fuel(pow10, 2);
    assert(pow10(1) == 10int);
}

proof fn lemma_digits_bound_1()
    ensures
        two_pow(6) <= pow10(2),
{
    reveal_with_fuel(two_pow, 7);
    assert(two_pow(6) == 64int);
    reveal_with_fuel(pow10, 3);
    assert(pow10(2) == 100int);
}

proof fn lemma_digits_bound_2()
    ensures
        two_pow(9) <= pow10(3),
{
    reveal_with_fuel(two_pow, 10);
    assert(two_pow(9) == 512int);
    reveal_with_fuel(pow10, 4);
    assert(pow10(3) == 1000int);
}

proof fn lemma_digits_bound_3()
    ensures
        two_pow(13) <= pow10(4),
{
    reveal_with_fuel(two_pow, 14);
    assert(two_pow(13) == 8192int);
    reveal_with_fuel(pow10, 5);
    assert(pow10(4) == 10000int);
}

proof fn lemma_digits_bound_4()
    ensures
        two_pow(16) <= pow10(5),
{
    reveal_with_fuel(two_pow, 17);
    assert(two_pow(16) == 65536int);
    reveal_with_fuel(pow10, 6);
    assert(pow10(5) == 100000int);
}

proof fn lemma_digits_bound_5()
    ensures
        two_pow(19) <= pow10(6),
{
    reveal_with_fuel(two_pow, 20);
    assert(two_pow(19) == 524288int);
    reveal_with_fuel(pow10, 7);
    assert(pow10(6) == 1000000int);
}

proof fn lemma_digits_bound_6()
    ensures
        two_pow(23) <= pow10(7),
{
    reveal_with_fuel(two_pow, 24);
    assert(two_pow(23) == 8388608int);
    reveal_with_fuel(pow10, 8);
    assert(pow10(7) == 10000000int);
}

proof fn lemma_digits_bound_7()
    ensures
        two_pow(26) <= pow10(8),
{
    reveal_with_fuel(two_pow, 27);
    assert(two_pow(26) == 67108864int);
    reveal_with_fuel(pow10, 9);
    assert(pow10(8) == 100000000int);
}

proof fn lemma_digits_bound_8()
    ensures
        two_pow(29) <= pow10(9),
{
    reveal_with_fuel(two_pow, 30);
    assert(two_pow(29) == 536870912int);
    reveal_with_fuel(pow10, 10);
    assert(pow10(9) == 1000000000int);
}

proof fn lemma_digits_bound_9()
    ensures
        two_pow(33) <= pow10(10),
{
    reveal_with_fuel(two_pow, 34);
    assert(two_pow(33) == 8589934592int);
    reveal_with_fuel(pow10, 11);
    assert(pow10(10) == 10000000000int);
}

proof fn lemma_digits_bound_10()
    ensures
        two_pow(36) <= pow10(11),
{
    reveal_with_fuel(two_pow, 37);
    assert(two_pow(36) == 68719476736int);
    reveal_with_fuel(pow10, 12);
    assert(pow10(11) == 100000000000int);
}

proof fn lemma_digits_bound_11()
    ensures
        two_pow(39) <= pow10(12),
{
    reveal_with_fuel(two_pow, 40);
    assert(two_pow(39) == 549755813888int);
    reveal_with_fuel(pow10, 13);
    assert(pow10(12) == 1000000000000int);
}

proof fn lemma_digits_bound_12()
    ensures
        two_pow(43) <= pow10(13),
{
    reveal_with_fuel(two_pow, 44);
    assert(two_pow(43) == 8796093022208int);
    reveal_with_fuel(pow10, 14);
    assert(pow10(13) == 10000000000000int);
}

proof fn lemma_digits_bound_13()
    ensures
        two_pow(46) <= pow10(14),
{
    reveal_with_fuel(two_pow, 47);
    assert(two_pow(46) == 70368744177664int);
    reveal_with_fuel(pow10, 15);
    assert(pow10(14) == 100000000000000int);
}

proof fn lemma_digits_bound_14()
    ensures
        two_pow(49) <= pow10(15),
{
    reveal_with_fuel(two_pow, 50);
    assert(two_pow(49) == 562949953421312int);
    reveal_with_fuel(pow10, 16);
    assert(pow10(15) == 1000000000000000int);
}

proof fn lemma_digits_bound_15()
    ensures
        two_pow(53) <= pow10(16),
{
    reveal_with_fuel(two_pow, 54);
    assert(two_pow(53) == 9007199254740992int);
    reveal_with_fuel(pow10, 17);
    assert(pow10(16) == 10000000000000000int);
}

proof fn lemma_digits_bound_16()
    ensures
        two_pow(56) <= pow10(17),
{
    reveal_with_fuel(two_pow, 57);
    assert(two_pow(56) == 72057594037927936int);
    reveal_with_fuel(pow10, 18);
    assert(pow10(17) == 100000000000000000int);
}

proof fn lemma_digits_bound_17()
    ensures
        two_pow(59) <= pow10(18),
{
    reveal_with_fuel(two_pow, 60);
    assert(two_pow(59) == 576460752303423488int);
    reveal_with_fuel(pow10, 19);
    assert(pow10(18) == 1000000000000000000int);
}

proof fn lemma_digits_bound_18()
    ensures
        two_pow(63) <= pow10(19),
{
    reveal_with_fuel(two_pow, 64);
    assert(two_pow(63) == 9223372036854775808int);
    reveal_with_fuel(pow10, 20);
    assert(pow10(19) == 10000000000000000000int);
}

proof fn lemma_digits_bound_19()
    ensures
        two_pow(66) <= pow10(20),
{
    lemma_two_pow_64();
    lemma_two_pow_add(64, 2);
    assert(two_pow(2) == 4int) by {
        reveal_with_fuel(two_pow, 3);
    }
    assert(18446744073709551616int * 4int == 73786976294838206464int);
    reveal_with_fuel(pow10, 21);
    assert(pow10(20) == 100000000000000000000int);
}

proof fn lemma_digits_bound_20()
    ensures
        two_pow(69) <= pow10(21),
{
    lemma_two_pow_64();
    lemma_two_pow_add(64, 5);
    assert(two_pow(5) == 32int) by {
        reveal_with_fuel(two_pow, 6);
    }
    assert(18446744073709551616int * 32int == 590295810358705651712int);
    reveal_with_fuel(pow10, 22);
    assert(pow10(21) == 1000000000000000000000int);
}

proof fn lemma_digits_bound_21()
    ensures
        two_pow(73) <= pow10(22),
{
    lemma_two_pow_64();
    lemma_two_pow_add(64, 9);
    assert(two_pow(9) == 512int) by {
        reveal_with_fuel(two_pow, 10);
    }
    assert(18446744073709551616int * 512int == 9444732965739290427392int);
    reveal_with_fuel(pow10, 23);
    assert(pow10(22) == 10000000000000000000000int);
}

proof fn lemma_digits_bound_22()
    ensures
        two_pow(76) <= pow10(23),
{
    lemma_two_pow_64();
    lemma_two_pow_add(64, 12);
    assert(two_pow(12) == 4096int) by {
        reveal_with_fuel(two_pow, 13);
    }
    assert(18446744073709551616int * 4096int == 75557863725914323419136int);
    reveal_with_fuel(pow10, 24);
    assert(pow10(23) == 100000000000000000000000int);
}

proof fn lemma_digits_bound_23()
    ensures
        two_pow(79) <= pow10(24),
{
    lemma_two_pow_64();
    lemma_two_pow_add(64, 15);
    assert(two_pow(15) == 32768int) by {
        reveal_with_fuel(two_pow, 16);
    }
    assert(18446744073709551616int * 32768int == 604462909807314587353088int);
    reveal_with_fuel(pow10, 25);
    assert(pow10(24) == 1000000000000000000000000int);
}

proof fn lemma_digits_bound_24()
    ensures
        two_pow(83) <= pow10(25),
{
    lemma_two_pow_64();
    lemma_two_pow_add(64, 19);
    assert(two_pow(19) == 524288int) by {
        reveal_with_fuel(two_pow, 20);
    }
    assert(18446744073709551616int * 524288int == 9671406556917033397649408int);
    reveal_with_fuel(pow10, 26);
    assert(pow10(25) == 10000000000000000000000000int);
}

proof fn lemma_digits_bound_25()
    ensures
        two_pow(86) <= pow10(26),
{
    lemma_two_pow_64();
    lemma_two_pow_add(64, 22);
    assert(two_pow(22) == 4194304int) by {
        reveal_with_fuel(two_pow, 23);
    }
    assert(18446744073709551616int * 4194304int == 77371252455336267181195264int);
    reveal_with_fuel(pow10, 27);
    assert(pow10(26) == 100000000000000000000000000int);
}

proof fn lemma_digits_bound_26()
    ensures
        two_pow(89) <= pow10(27),
{
    lemma_two_pow_64();
    lemma_two_pow_add(64, 25);
    assert(two_pow(25) == 33554432int) by {
        reveal_with_fuel(two_pow, 26);
    }
    assert(18446744073709551616int * 33554432int == 618970019642690137449562112int);
    reveal_with_fuel(pow10, 28);
    assert(pow10(27) == 1000000000000000000000000000int);
}

proof fn lemma_digits_bound_27()
    ensures
        two_pow(93) <= pow10(28),
{
    lemma_two_pow_64();
    lemma_two_pow_add(64, 29);
    assert(two_pow(29) == 536870912int) by {
        reveal_with_fuel(two_pow, 30);
    }
    assert(18446744073709551616int * 536870912int == 9903520314283042199192993792int);
    reveal_with_fuel(pow10, 29);
    assert(pow10(28) == 10000000000000000000000000000int);
}

proof fn lemma_digits_bound_28()
    ensures
        two_pow(96) <= pow10(29),
{
    lemma_two_pow_64();
    lemma_two_pow_add(64, 32);
    assert(two_pow(32) == 4294967296int) by {
        reveal_with_fuel(two_pow, 33);
    }
    assert(18446744073709551616int * 4294967296int == 79228162514264337593543950336int);
    reveal_with_fuel(pow10, 30);
    assert(pow10(29) == 100000000000000000000000000000int);
}

proof fn lemma_digits_bound_29()
    ensures
        two_pow(99) <= pow10(30),
{
    lemma_two_pow_64();
    lemma_two_pow_add(64, 35);
    assert(two_pow(35) == 34359738368int) by {
        reveal_with_fuel(two_pow, 36);
    }
    assert(18446744073709551616int * 34359738368int == 633825300114114700748351602688int);
    reveal_with_fuel(pow10, 31);
    assert(pow10(30) == 1000000000000000000000000000000int);
}

proof fn lemma_digits_bound_30()
    ensures
        two_pow(102) <= pow10(31),
{
    lemma_two_pow_64();
    lemma_two_pow_add(64, 38);
    assert(two_pow(38) == 274877906944int) by {
        reveal_with_fuel(two_pow, 39);
    }
    assert(18446744073709551616int * 274877906944int == 5070602400912917605986812821504int);
    reveal_with_fuel(pow10, 32);
    assert(pow10(31) == 10000000000000000000000000000000int);
}

proof fn lemma_digits_bound_31()
    ensures
        two_pow(106) <= pow10(32),
{
    lemma_two_pow_64();
    lemma_two_pow_add(64, 42);
    assert(two_pow(42) == 4398046511104int) by {
        reveal_with_fuel(two_pow, 43);
    }
    assert(18446744073709551616int * 4398046511104int == 81129638414606681695789005144064int);
    reveal_with_fuel(pow10, 33);
    assert(pow10(32) == 100000000000000000000000000000000int);
}

proof fn lemma_digits_bound_32()
    ensures
        two_pow(109) <= pow10(33),
{
    lemma_two_pow_64();
    lemma_two_pow_add(64, 45);
    assert(two_pow(45) == 35184372088832int) by {
        reveal_with_fuel(two_pow, 46);
    }
    assert(18446744073709551616int * 35184372088832int == 649037107316853453566312041152512int);
    reveal_with_fuel(pow10, 34);
    assert(pow10(33) == 1000000000000000000000000000000000int);
}

proof fn lemma_digits_bound_33()
    ensures
        two_pow(112) <= pow10(34),
{
    lemma_two_pow_64();
    lemma_two_pow_add(64, 48);
    assert(two_pow(48) == 281474976710656int) by {
        reveal_with_fuel(two_pow, 49);
    }
    assert(18446744073709551616int * 281474976710656int == 5192296858534827628530496329220096int);
    reveal_with_fuel(pow10, 35);
    assert(pow10(34) == 10000000000000000000000000000000000int);
}

proof fn lemma_digits_bound_34()
    ensures
        two_pow(116) <= pow10(35),
{
    lemma_two_pow_64();
    lemma_two_pow_add(64, 52);
    assert(two_pow(52) == 4503599627370496int) by {
        reveal_with_fuel(two_pow, 53);
    }
    assert(18446744073709551616int * 4503599627370496int == 83076749736557242056487941267521536int);
    reveal_with_fuel(pow10, 36);
    assert(pow10(35) == 100000000000000000000000000000000000int);
}

proof fn lemma_bits_bound_0()
    ensures
        1024 * pow10(0) < two_pow(13),
{
    reveal_with_fuel(two_pow, 14);
    assert(two_pow(13) == 8192int);
    reveal_with_fuel(pow10, 1);
    assert(pow10(0) == 1int);
}

proof fn lemma_bits_bound_1()
    ensures
        1024 * pow10(1) < two_pow(16),
{
    reveal_with_fuel(two_pow, 17);
    assert(two_pow(16) == 65536int);
    reveal_with_fuel(pow10, 2);
    assert(pow10(1) == 10int);
}

proof fn lemma_bits_bound_2()
    ensures
        1024 * pow10(2) < two_pow(19),
{
    reveal_with_fuel(two_pow, 20);
    assert(two_pow(19) == 524288int);
    reveal_with_fuel(pow10, 3);
    assert(pow10(2) == 100int);
}

proof fn lemma_bits_bound_3()
    ensures
        1024 * pow10(3) < two_pow(23),
{
    reveal_with_fuel(two_pow, 24);
    assert(two_pow(23) == 8388608int);
    reveal_with_fuel(pow10, 4);
    assert(pow10(3) == 1000int);
}

proof fn lemma_bits_bound_4()
    ensures
        1024 * pow10(4) < two_pow(26),
{
    reveal_with_fuel(two_pow, 27);
    assert(two_pow(26) == 67108864int);
    reveal_with_fuel(pow10, 5);
    assert(pow10(4) == 10000int);
}

proof fn lemma_bits_bound_5()
    ensures
        1024 * pow10(5) < two_pow(29),
{
    reveal_with_fuel(two_pow, 30);
    assert(two_pow(29) == 536870912int);
    reveal_with_fuel(pow10, 6);
    assert(pow10(5) == 100000int);
}

proof fn lemma_bits_bound_6()
    ensures
        1024 * pow10(6) < two_pow(33),
{
    reveal_with_fuel(two_pow, 34);
    assert(two_pow(33) == 8589934592int);
    reveal_with_fuel(pow10, 7);
    assert(pow10(6) == 1000000int);
}

proof fn lemma_bits_bound_7()
    ensures
        1024 * pow10(7) < two_pow(36),
{
    reveal_with_fuel(two_pow, 37);
    assert(two_pow(36) == 68719476736int);
    reveal_with_fuel(pow10, 8);
    assert(pow10(7) == 10000000int);
}

proof fn lemma_bits_bound_8()
    ensures
        1024 * pow10(8) < two_pow(39),
{
    reveal_with_fuel(two_pow, 40);
    assert(two_pow(39) == 549755813888int);
    reveal_with_fuel(pow10, 9);
    assert(pow10(8) == 100000000int);
}

proof fn lemma_bits_bound_9()
    ensures
        1024 * pow10(9) < two_pow(43),
{
    reveal_with_fuel(two_pow, 44);
    assert(two_pow(43) == 8796093022208int);
    reveal_with_fuel(pow10, 10);
    assert(pow10(9) == 1000000000int);
}

proof fn lemma_bits_bound_10()
    ensures
        1024 * pow10(10) < two_pow(46),
{
    reveal_with_fuel(two_pow, 47);
    assert(two_pow(46) == 70368744177664int);
    reveal_with_fuel(pow10, 11);
    assert(pow10(10) == 10000000000int);
}

proof fn lemma_bits_bound_11()
    ensures
        1024 * pow10(11) < two_pow(49),
{
    reveal_with_fuel(two_pow, 50);
    assert(two_pow(49) == 562949953421312int);
    reveal_with_fuel(pow10, 12);
    assert(pow10(11) == 100000000000int);
}

proof fn lemma_bits_bound_12()
    ensures
        1024 * pow10(12) < two_pow(53),
{
    reveal_with_fuel(two_pow, 54);
    assert(two_pow(53) == 9007199254740992int);
    reveal_with_fuel(pow10, 13);
    assert(pow10(12) == 1000000000000int);
}

proof fn lemma_bits_bound_13()
    ensures
        1024 * pow10(13) < two_pow(56),
{
    reveal_with_fuel(two_pow, 57);
    assert(two_pow(56) == 72057594037927936int);
    reveal_with_fuel(pow10, 14);
    assert(pow10(13) == 10000000000000int);
}

proof fn lemma_bits_bound_14()
    ensures
        1024 * pow10(14) < two_pow(59),
{
    reveal_with_fuel(two_pow, 60);
    assert(two_pow(59) == 576460752303423488int);
    reveal_with_fuel(pow10, 15);
    assert(pow10(14) == 100000000000000int);
}

proof fn lemma_bits_bound_15()
    ensures
        1024 * pow10(15) < two_pow(63),
{
    reveal_with_fuel(two_pow, 64);
    assert(two_pow(63) == 9223372036854775808int);
    reveal_with_fuel(pow10, 16);
    assert(pow10(15) == 1000000000000000int);
}

proof fn lemma_bits_bound_16()
    ensures
        1024 * pow10(16) < two_pow(66),
{
    lemma_two_pow_64();
    lemma_two_pow_add(64, 2);
    assert(two_pow(2) == 4int) by {
        reveal_with_fuel(two_pow, 3);
    }
    assert(18446744073709551616int * 4int == 73786976294838206464int);
    reveal_with_fuel(pow10, 17);
    assert(pow10(16) == 10000000000000000int);
}

proof fn lemma_bits_bound_17()
    ensures
        1024 * pow10(17) < two_pow(69),
{
    lemma_two_pow_64();
    lemma_two_pow_add(64, 5);
    assert(two_pow(5) == 32int) by {
        reveal_with_fuel(two_pow, 6);
    }
    assert(18446744073709551616int * 32int == 590295810358705651712int);
    reveal_with_fuel(pow10, 18);
    assert(pow10(17) == 100000000000000000int);
}

proof fn lemma_bits_bound_18()
    ensures
        1024 * pow10(18) < two_pow(73),
{
    lemma_two_pow_64();
    lemma_two_pow_add(64, 9);
    assert(two_pow(9) == 512int) by {
        reveal_with_fuel(two_pow, 10);
    }
    assert(18446744073709551616int * 512int == 9444732965739290427392int);
    reveal_with_fuel(pow10, 19);
    assert(pow10(18) == 1000000000000000000int);
}

proof fn lemma_bits_bound_19()
    ensures
        1024 * pow10(19) < two_pow(76),
{
    lemma_two_pow_64();
    lemma_two_pow_add(64, 12);
    assert(two_pow(12) == 4096int) by {
        reveal_with_fuel(two_pow, 13);
    }
    assert(18446744073709551616int * 4096int == 75557863725914323419136int);
    reveal_with_fuel(pow10, 20);
    assert(pow10(19) == 10000000000000000000int);
}

proof fn lemma_bits_bound_20()
    ensures
        1024 * pow10(20) < two_pow(79),
{
    lemma_two_pow_64();
    lemma_two_pow_add(64, 15);
    assert(two_pow(15) == 32768int) by {
        reveal_with_fuel(two_pow, 16);
    }
    assert(18446744073709551616int * 32768int == 604462909807314587353088int);
    reveal_with_fuel(pow10, 21);
    assert(pow10(20) == 100000000000000000000int);
}

proof fn lemma_bits_bound_21()
    ensures
        1024 * pow10(21) < two_pow(83),
{
    lemma_two_pow_64();
    lemma_two_pow_add(64, 19);
    assert(two_pow(19) == 524288int) by {
        reveal_with_fuel(two_pow, 20);
    }
    assert(18446744073709551616int * 524288int == 9671406556917033397649408int);
    reveal_with_fuel(pow10, 22);
    assert(pow10(21) == 1000000000000000000000int);
}

proof fn lemma_bits_bound_22()
    ensures
        1024 * pow10(22) < two_pow(86),
{
    lemma_two_pow_64();
    lemma_two_pow_add(64, 22);
    assert(two_pow(22) == 4194304int) by {
        reveal_with_fuel(two_pow, 23);
    }
    assert(18446744073709551616int * 4194304int == 77371252455336267181195264int);
    reveal_with_fuel(pow10, 23);
    assert(pow10(22) == 10000000000000000000000int);
}

proof fn lemma_bits_bound_23()
    ensures
        1024 * pow10(23) < two_pow(89),
{
    lemma_two_pow_64();
    lemma_two_pow_add(64, 25);
    assert(two_pow(25) == 33554432int) by {
        reveal_with_fuel(two_pow, 26);
    }
    assert(18446744073709551616int * 33554432int == 618970019642690137449562112int);
    reveal_with_fuel(pow10, 24);
    assert(pow10(23) == 100000000000000000000000int);
}

proof fn lemma_bits_bound_24()
    ensures
        1024 * pow10(24) < two_pow(93),
{
    lemma_two_pow_64();
    lemma_two_pow_add(64, 29);
    assert(two_pow(29) == 536870912int) by {
        reveal_with_fuel(two_pow, 30);
    }
    assert(18446744073709551616int * 536870912int == 9903520314283042199192993792int);
    reveal_with_fuel(pow10, 25);
    assert(pow10(24) == 1000000000000000000000000int);
}

proof fn lemma_bits_bound_25()
    ensures
        1024 * pow10(25) < two_pow(96),
{
    lemma_two_pow_64();
    lemma_two_pow_add(64, 32);
    assert(two_pow(32) == 4294967296int) by {
        reveal_with_fuel(two_pow, 33);
    }
    assert(18446744073709551616int * 4294967296int == 79228162514264337593543950336int);
    reveal_with_fuel(pow10, 26);
    assert(pow10(25) == 10000000000000000000000000int);
}

proof fn lemma_bits_bound_26()
    ensures
        1024 * pow10(26) < two_pow(99),
{
    lemma_two_pow_64();
    lemma_two_pow_add(64, 35);
    assert(two_pow(35) == 34359738368int) by {
        reveal_with_fuel(two_pow, 36);
    }
    assert(18446744073709551616int * 34359738368int == 633825300114114700748351602688int);
    reveal_with_fuel(pow10, 27);
    assert(pow10(26) == 100000000000000000000000000int);
}

proof fn lemma_bits_bound_27()
    ensures
        1024 * pow10(27) < two_pow(102),
{
    lemma_two_pow_64();
    lemma_two_pow_add(64, 38);
    assert(two_pow(38) == 274877906944int) by {
        reveal_with_fuel(two_pow, 39);
    }
    assert(18446744073709551616int * 274877906944int == 5070602400912917605986812821504int);
    reveal_with_fuel(pow10, 28);
    assert(pow10(27) == 1000000000000000000000000000int);
}

proof fn lemma_bits_bound_28()
    ensures
        1024 * pow10(28) < two_pow(106),
{
    lemma_two_pow_64();
    lemma_two_pow_add(64, 42);
    assert(two_pow(42) == 4398046511104int) by {
        reveal_with_fuel(two_pow, 43);
    }
    assert(18446744073709551616int * 4398046511104int == 81129638414606681695789005144064int);
    reveal_with_fuel(pow10, 29);
    assert(pow10(28) == 10000000000000000000000000000int);
}

proof fn lemma_bits_bound_29()
    ensures
        1024 * pow10(29) < two_pow(109),
{
    lemma_two_pow_64();
    lemma_two_pow_add(64, 45);
    assert(two_pow(45) == 35184372088832int) by {
        reveal_with_fuel(two_pow, 46);
    }
    assert(18446744073709551616int * 35184372088832int == 649037107316853453566312041152512int);
    reveal_with_fuel(pow10, 30);
    assert(pow10(29) == 100000000000000000000000000000int);
}

proof fn lemma_bits_bound_30()
    ensures
        1024 * pow10(30) < two_pow(112),
{
    lemma_two_pow_64();
    lemma_two_pow_add(64, 48);
    assert(two_pow(48) == 281474976710656int) by {
        reveal_with_fuel(two_pow, 49);
    }
    assert(18446744073709551616int * 281474976710656int == 5192296858534827628530496329220096int);
    reveal_with_fuel(pow10, 31);
    assert(pow10(30) == 1000000000000000000000000000000int);
}

proof fn lemma_bits_bound_31()
    ensures
        1024 * pow10(31) < two_pow(116),
{
    lemma_two_pow_64();
    lemma_two_pow_add(64, 52);
    assert(two_pow(52) == 4503599627370496int) by {
        reveal_with_fuel(two_pow, 53);
    }
    assert(18446744073709551616int * 4503599627370496int == 83076749736557242056487941267521536int);
    reveal_with_fuel(pow10, 32);
    assert(pow10(31) == 10000000000000000000000000000000int);
}

/// A number of `b` bits, where `b * 30103 / 100000` is `q`, stays below
/// 10^(q + 1): the largest such `b` is `(100000 * (q + 1) - 1) / 30103`.
pub proof fn lemma_digits_bound(q: nat)
    requires
        q <= 34,
    ensures
        two_pow(((100000 * (q + 1) - 1) / 30103) as nat) <= pow10(q + 1),
{
    if q == 0 {
        lemma_digits_bound_0();
    }
    if q == 1 {
        lemma_digits_bound_1();
    }
    if q == 2 {
        lemma_digits_bound_2();
    }
    if q == 3 {
        lemma_digits_bound_3();
    }
    if q == 4 {
        lemma_digits_bound_4();
    }
    if q == 5 {
        lemma_digits_bound_5();
    }
    if q == 6 {
        lemma_digits_bound_6();
    }
    if q == 7 {
        lemma_digits_bound_7();
    }
    if q == 8 {
        lemma_digits_bound_8();
    }
    if q == 9 {
        lemma_digits_bound_9();
    }
    if q == 10 {
        lemma_digits_bound_10();
    }
    if q == 11 {
        lemma_digits_bound_11();
    }
    if q == 12 {
        lemma_digits_bound_12();
    }
    if q == 13 {
        lemma_digits_bound_13();
    }
    if q == 14 {
        lemma_digits_bound_14();
    }
    if q == 15 {
        lemma_digits_bound_15();
    }
    if q == 16 {
        lemma_digits_bound_16();
    }
    if q == 17 {
        lemma_digits_bound_17();
    }
    if q == 18 {
        lemma_digits_bound_18();
    }
    if q == 19 {
        lemma_digits_bound_19();
    }
    if q == 20 {
        lemma_digits_bound_20();
    }
    if q == 21 {
        lemma_digits_bound_21();
    }
    if q == 22 {
        lemma_digits_bound_22();
    }
    if q == 23 {
        lemma_digits_bound_23();
    }
    if q == 24 {
        lemma_digits_bound_24();
    }
    if q == 25 {
        lemma_digits_bound_25();
    }
    if q == 26 {
        lemma_digits_bound_26();
    }
    if q == 27 {
        lemma_digits_bound_27();
    }
    if q == 28 {
        lemma_digits_bound_28();
    }
    if q == 29 {
        lemma_digits_bound_29();
    }
    if q == 30 {
        lemma_digits_bound_30();
    }
    if q == 31 {
        lemma_digits_bound_31();
    }
    if q == 32 {
        lemma_digits_bound_32();
    }
    if q == 33 {
        lemma_digits_bound_33();
    }
    if q == 34 {
        lemma_digits_bound_34();
    }
}

/// 1024 times 10^k is below 2^(n - 1), where `n` is the least number of bits
/// whose estimate of digits, `n * 30103 / 100000`, reaches `k + 4`.
pub proof fn lemma_bits_bound(k: nat)
    requires
        k <= 31,
    ensures
        1024 * pow10(k) < two_pow((((100000 * (k + 4) + 30102) / 30103) - 1) as nat),
{
    if k == 0 {
        lemma_bits_bound_0();
    }
    if k == 1 {
        lemma_bits_bound_1();
    }
    if k == 2 {
        lemma_bits_bound_2();
    }
    if k == 3 {
        lemma_bits_bound_3();
    }
    if k == 4 {
        lemma_bits_bound_4();
    }
    if k == 5 {
        lemma_bits_bound_5();
    }
    if k == 6 {
        lemma_bits_bound_6();
    }
    if k == 7 {
        lemma_bits_bound_7();
    }
    if k == 8 {
        lemma_bits_bound_8();
    }
    if k == 9 {
        lemma_bits_bound_9();
    }
    if k == 10 {
        lemma_bits_bound_10();
    }
    if k == 11 {
        lemma_bits_bound_11();
    }
    if k == 12 {
        lemma_bits_bound_12();
    }
    if k == 13 {
        lemma_bits_bound_13();
    }
    if k == 14 {
        lemma_bits_bound_14();
    }
    if k == 15 {
        lemma_bits_bound_15();
    }
    if k == 16 {
        lemma_bits_bound_16();
    }
    if k == 17 {
        lemma_bits_bound_17();
    }
    if k == 18 {
        lemma_bits_bound_18();
    }
    if k == 19 {
        lemma_bits_bound_19();
    }
    if k == 20 {
        lemma_bits_bound_20();
    }
    if k == 21 {
        lemma_bits_bound_21();
    }
    if k == 22 {
        lemma_bits_bound_22();
    }
    if k == 23 {
        lemma_bits_bound_23();
    }
    if k == 24 {
        lemma_bits_bound_24();
    }
    if k == 25 {
        lemma_bits_bound_25();
    }
    if k == 26 {
        lemma_bits_bound_26();
    }
    if k == 27 {
        lemma_bits_bound_27();
    }
    if k == 28 {
        lemma_bits_bound_28();
    }
    if k == 29 {
        lemma_bits_bound_29();
    }
    if k == 30 {
        lemma_bits_bound_30();
    }
    if k == 31 {
        lemma_bits_bound_31();
    }
}

} // verus!
