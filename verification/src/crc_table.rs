//! The lookup table of CRC-32, written out, with the proof that every entry
//! is what eight division steps make of its index.

use crate::crc::crc_shifts;
use vstd::prelude::*;

verus! {

/// Entry `n` is the remainder that the byte `n` leaves after eight steps of
/// the bit-reflected division by the CRC-32 polynomial.
pub const CRC_TABLE: [u32; 256] = [
    0x00000000, 0x77073096, 0xEE0E612C, 0x990951BA,
    0x076DC419, 0x706AF48F, 0xE963A535, 0x9E6495A3,
    0x0EDB8832, 0x79DCB8A4, 0xE0D5E91E, 0x97D2D988,
    0x09B64C2B, 0x7EB17CBD, 0xE7B82D07, 0x90BF1D91,
    0x1DB71064, 0x6AB020F2, 0xF3B97148, 0x84BE41DE,
    0x1ADAD47D, 0x6DDDE4EB, 0xF4D4B551, 0x83D385C7,
    0x136C9856, 0x646BA8C0, 0xFD62F97A, 0x8A65C9EC,
    0x14015C4F, 0x63066CD9, 0xFA0F3D63, 0x8D080DF5,
    0x3B6E20C8, 0x4C69105E, 0xD56041E4, 0xA2677172,
    0x3C03E4D1, 0x4B04D447, 0xD20D85FD, 0xA50AB56B,
    0x35B5A8FA, 0x42B2986C, 0xDBBBC9D6, 0xACBCF940,
    0x32D86CE3, 0x45DF5C75, 0xDCD60DCF, 0xABD13D59,
    0x26D930AC, 0x51DE003A, 0xC8D75180, 0xBFD06116,
    0x21B4F4B5, 0x56B3C423, 0xCFBA9599, 0xB8BDA50F,
    0x2802B89E, 0x5F058808, 0xC60CD9B2, 0xB10BE924,
    0x2F6F7C87, 0x58684C11, 0xC1611DAB, 0xB6662D3D,
    0x76DC4190, 0x01DB7106, 0x98D220BC, 0xEFD5102A,
    0x71B18589, 0x06B6B51F, 0x9FBFE4A5, 0xE8B8D433,
    0x7807C9A2, 0x0F00F934, 0x9609A88E, 0xE10E9818,
    0x7F6A0DBB, 0x086D3D2D, 0x91646C97, 0xE6635C01,
    0x6B6B51F4, 0x1C6C6162, 0x856530D8, 0xF262004E,
    0x6C0695ED, 0x1B01A57B, 0x8208F4C1, 0xF50FC457,
    0x65B0D9C6, 0x12B7E950, 0x8BBEB8EA, 0xFCB9887C,
    0x62DD1DDF, 0x15DA2D49, 0x8CD37CF3, 0xFBD44C65,
    0x4DB26158, 0x3AB551CE, 0xA3BC0074, 0xD4BB30E2,
    0x4ADFA541, 0x3DD895D7, 0xA4D1C46D, 0xD3D6F4FB,
    0x4369E96A, 0x346ED9FC, 0xAD678846, 0xDA60B8D0,
    0x44042D73, 0x33031DE5, 0xAA0A4C5F, 0xDD0D7CC9,
    0x5005713C, 0x270241AA, 0xBE0B1010, 0xC90C2086,
    0x5768B525, 0x206F85B3, 0xB966D409, 0xCE61E49F,
    0x5EDEF90E, 0x29D9C998, 0xB0D09822, 0xC7D7A8B4,
    0x59B33D17, 0x2EB40D81, 0xB7BD5C3B, 0xC0BA6CAD,
    0xEDB88320, 0x9ABFB3B6, 0x03B6E20C, 0x74B1D29A,
    0xEAD54739, 0x9DD277AF, 0x04DB2615, 0x73DC1683,
    0xE3630B12, 0x94643B84, 0x0D6D6A3E, 0x7A6A5AA8,
    0xE40ECF0B, 0x9309FF9D, 0x0A00AE27, 0x7D079EB1,
    0xF00F9344, 0x8708A3D2, 0x1E01F268, 0x6906C2FE,
    0xF762575D, 0x806567CB, 0x196C3671, 0x6E6B06E7,
    0xFED41B76, 0x89D32BE0, 0x10DA7A5A, 0x67DD4ACC,
    0xF9B9DF6F, 0x8EBEEFF9, 0x17B7BE43, 0x60B08ED5,
    0xD6D6A3E8, 0xA1D1937E, 0x38D8C2C4, 0x4FDFF252,
    0xD1BB67F1, 0xA6BC5767, 0x3FB506DD, 0x48B2364B,
    0xD80D2BDA, 0xAF0A1B4C, 0x36034AF6, 0x41047A60,
    0xDF60EFC3, 0xA867DF55, 0x316E8EEF, 0x4669BE79,
    0xCB61B38C, 0xBC66831A, 0x256FD2A0, 0x5268E236,
    0xCC0C7795, 0xBB0B4703, 0x220216B9, 0x5505262F,
    0xC5BA3BBE, 0xB2BD0B28, 0x2BB45A92, 0x5CB36A04,
    0xC2D7FFA7, 0xB5D0CF31, 0x2CD99E8B, 0x5BDEAE1D,
    0x9B64C2B0, 0xEC63F226, 0x756AA39C, 0x026D930A,
    0x9C0906A9, 0xEB0E363F, 0x72076785, 0x05005713,
    0x95BF4A82, 0xE2B87A14, 0x7BB12BAE, 0x0CB61B38,
    0x92D28E9B, 0xE5D5BE0D, 0x7CDCEFB7, 0x0BDBDF21,
    0x86D3D2D4, 0xF1D4E242, 0x68DDB3F8, 0x1FDA836E,
    0x81BE16CD, 0xF6B9265B, 0x6FB077E1, 0x18B74777,
    0x88085AE6, 0xFF0F6A70, 0x66063BCA, 0x11010B5C,
    0x8F659EFF, 0xF862AE69, 0x616BFFD3, 0x166CCF45,
    0xA00AE278, 0xD70DD2EE, 0x4E048354, 0x3903B3C2,
    0xA7672661, 0xD06016F7, 0x4969474D, 0x3E6E77DB,
    0xAED16A4A, 0xD9D65ADC, 0x40DF0B66, 0x37D83BF0,
    0xA9BCAE53, 0xDEBB9EC5, 0x47B2CF7F, 0x30B5FFE9,
    0xBDBDF21C, 0xCABAC28A, 0x53B39330, 0x24B4A3A6,
    0xBAD03605, 0xCDD70693, 0x54DE5729, 0x23D967BF,
    0xB3667A2E, 0xC4614AB8, 0x5D681B02, 0x2A6F2B94,
    0xB40BBE37, 0xC30C8EA1, 0x5A05DF1B, 0x2D02EF8D,
];

/// Every entry of the table is the remainder of its index.
pub proof fn lemma_crc_table_entry(n: u8)
    ensures
        CRC_TABLE[n as int] == crc_shifts(n as u32, 8),
{
    if n < 32 {
        lemma_lookup_first(n as int);
    } else if n < 64 {
        lemma_lookup_second(n as int);
    } else if n < 96 {
        lemma_lookup_third(n as int);
    } else if n < 128 {
        lemma_lookup_fourth(n as int);
    } else if n < 160 {
        lemma_lookup_fifth(n as int);
    } else if n < 192 {
        lemma_lookup_sixth(n as int);
    } else if n < 224 {
        lemma_lookup_seventh(n as int);
    } else {
        lemma_lookup_eighth(n as int);
    }
}

proof fn lemma_entries_first()
    by (bit_vector)
    ensures
        crc_shifts(0u32, 8) == 0x00000000u32,
        crc_shifts(1u32, 8) == 0x77073096u32,
        crc_shifts(2u32, 8) == 0xEE0E612Cu32,
        crc_shifts(3u32, 8) == 0x990951BAu32,
        crc_shifts(4u32, 8) == 0x076DC419u32,
        crc_shifts(5u32, 8) == 0x706AF48Fu32,
        crc_shifts(6u32, 8) == 0xE963A535u32,
        crc_shifts(7u32, 8) == 0x9E6495A3u32,
        crc_shifts(8u32, 8) == 0x0EDB8832u32,
        crc_shifts(9u32, 8) == 0x79DCB8A4u32,
        crc_shifts(10u32, 8) == 0xE0D5E91Eu32,
        crc_shifts(11u32, 8) == 0x97D2D988u32,
        crc_shifts(12u32, 8) == 0x09B64C2Bu32,
        crc_shifts(13u32, 8) == 0x7EB17CBDu32,
        crc_shifts(14u32, 8) == 0xE7B82D07u32,
        crc_shifts(15u32, 8) == 0x90BF1D91u32,
        crc_shifts(16u32, 8) == 0x1DB71064u32,
        crc_shifts(17u32, 8) == 0x6AB020F2u32,
        crc_shifts(18u32, 8) == 0xF3B97148u32,
        crc_shifts(19u32, 8) == 0x84BE41DEu32,
        crc_shifts(20u32, 8) == 0x1ADAD47Du32,
        crc_shifts(21u32, 8) == 0x6DDDE4EBu32,
        crc_shifts(22u32, 8) == 0xF4D4B551u32,
        crc_shifts(23u32, 8) == 0x83D385C7u32,
        crc_shifts(24u32, 8) == 0x136C9856u32,
        crc_shifts(25u32, 8) == 0x646BA8C0u32,
        crc_shifts(26u32, 8) == 0xFD62F97Au32,
        crc_shifts(27u32, 8) == 0x8A65C9ECu32,
        crc_shifts(28u32, 8) == 0x14015C4Fu32,
        crc_shifts(29u32, 8) == 0x63066CD9u32,
        crc_shifts(30u32, 8) == 0xFA0F3D63u32,
        crc_shifts(31u32, 8) == 0x8D080DF5u32,
{
}

proof fn lemma_lookup_first(n: int)
    requires
        0 <= n < 32,
    ensures
        CRC_TABLE[n] == crc_shifts(n as u32, 8),
{
    lemma_entries_first();
}

proof fn lemma_entries_second()
    by (bit_vector)
    ensures
        crc_shifts(32u32, 8) == 0x3B6E20C8u32,
        crc_shifts(33u32, 8) == 0x4C69105Eu32,
        crc_shifts(34u32, 8) == 0xD56041E4u32,
        crc_shifts(35u32, 8) == 0xA2677172u32,
        crc_shifts(36u32, 8) == 0x3C03E4D1u32,
        crc_shifts(37u32, 8) == 0x4B04D447u32,
        crc_shifts(38u32, 8) == 0xD20D85FDu32,
        crc_shifts(39u32, 8) == 0xA50AB56Bu32,
        crc_shifts(40u32, 8) == 0x35B5A8FAu32,
        crc_shifts(41u32, 8) == 0x42B2986Cu32,
        crc_shifts(42u32, 8) == 0xDBBBC9D6u32,
        crc_shifts(43u32, 8) == 0xACBCF940u32,
        crc_shifts(44u32, 8) == 0x32D86CE3u32,
        crc_shifts(45u32, 8) == 0x45DF5C75u32,
        crc_shifts(46u32, 8) == 0xDCD60DCFu32,
        crc_shifts(47u32, 8) == 0xABD13D59u32,
        crc_shifts(48u32, 8) == 0x26D930ACu32,
        crc_shifts(49u32, 8) == 0x51DE003Au32,
        crc_shifts(50u32, 8) == 0xC8D75180u32,
        crc_shifts(51u32, 8) == 0xBFD06116u32,
        crc_shifts(52u32, 8) == 0x21B4F4B5u32,
        crc_shifts(53u32, 8) == 0x56B3C423u32,
        crc_shifts(54u32, 8) == 0xCFBA9599u32,
        crc_shifts(55u32, 8) == 0xB8BDA50Fu32,
        crc_shifts(56u32, 8) == 0x2802B89Eu32,
        crc_shifts(57u32, 8) == 0x5F058808u32,
        crc_shifts(58u32, 8) == 0xC60CD9B2u32,
        crc_shifts(59u32, 8) == 0xB10BE924u32,
        crc_shifts(60u32, 8) == 0x2F6F7C87u32,
        crc_shifts(61u32, 8) == 0x58684C11u32,
        crc_shifts(62u32, 8) == 0xC1611DABu32,
        crc_shifts(63u32, 8) == 0xB6662D3Du32,
{
}

proof fn lemma_lookup_second(n: int)
    requires
        32 <= n < 64,
    ensures
        CRC_TABLE[n] == crc_shifts(n as u32, 8),
{
    lemma_entries_second();
}

proof fn lemma_entries_third()
    by (bit_vector)
    ensures
        crc_shifts(64u32, 8) == 0x76DC4190u32,
        crc_shifts(65u32, 8) == 0x01DB7106u32,
        crc_shifts(66u32, 8) == 0x98D220BCu32,
        crc_shifts(67u32, 8) == 0xEFD5102Au32,
        crc_shifts(68u32, 8) == 0x71B18589u32,
        crc_shifts(69u32, 8) == 0x06B6B51Fu32,
        crc_shifts(70u32, 8) == 0x9FBFE4A5u32,
        crc_shifts(71u32, 8) == 0xE8B8D433u32,
        crc_shifts(72u32, 8) == 0x7807C9A2u32,
        crc_shifts(73u32, 8) == 0x0F00F934u32,
        crc_shifts(74u32, 8) == 0x9609A88Eu32,
        crc_shifts(75u32, 8) == 0xE10E9818u32,
        crc_shifts(76u32, 8) == 0x7F6A0DBBu32,
        crc_shifts(77u32, 8) == 0x086D3D2Du32,
        crc_shifts(78u32, 8) == 0x91646C97u32,
        crc_shifts(79u32, 8) == 0xE6635C01u32,
        crc_shifts(80u32, 8) == 0x6B6B51F4u32,
        crc_shifts(81u32, 8) == 0x1C6C6162u32,
        crc_shifts(82u32, 8) == 0x856530D8u32,
        crc_shifts(83u32, 8) == 0xF262004Eu32,
        crc_shifts(84u32, 8) == 0x6C0695EDu32,
        crc_shifts(85u32, 8) == 0x1B01A57Bu32,
        crc_shifts(86u32, 8) == 0x8208F4C1u32,
        crc_shifts(87u32, 8) == 0xF50FC457u32,
        crc_shifts(88u32, 8) == 0x65B0D9C6u32,
        crc_shifts(89u32, 8) == 0x12B7E950u32,
        crc_shifts(90u32, 8) == 0x8BBEB8EAu32,
        crc_shifts(91u32, 8) == 0xFCB9887Cu32,
        crc_shifts(92u32, 8) == 0x62DD1DDFu32,
        crc_shifts(93u32, 8) == 0x15DA2D49u32,
        crc_shifts(94u32, 8) == 0x8CD37CF3u32,
        crc_shifts(95u32, 8) == 0xFBD44C65u32,
{
}

proof fn lemma_lookup_third(n: int)
    requires
        64 <= n < 96,
    ensures
        CRC_TABLE[n] == crc_shifts(n as u32, 8),
{
    lemma_entries_third();
}

proof fn lemma_entries_fourth()
    by (bit_vector)
    ensures
        crc_shifts(96u32, 8) == 0x4DB26158u32,
        crc_shifts(97u32, 8) == 0x3AB551CEu32,
        crc_shifts(98u32, 8) == 0xA3BC0074u32,
        crc_shifts(99u32, 8) == 0xD4BB30E2u32,
        crc_shifts(100u32, 8) == 0x4ADFA541u32,
        crc_shifts(101u32, 8) == 0x3DD895D7u32,
        crc_shifts(102u32, 8) == 0xA4D1C46Du32,
        crc_shifts(103u32, 8) == 0xD3D6F4FBu32,
        crc_shifts(104u32, 8) == 0x4369E96Au32,
        crc_shifts(105u32, 8) == 0x346ED9FCu32,
        crc_shifts(106u32, 8) == 0xAD678846u32,
        crc_shifts(107u32, 8) == 0xDA60B8D0u32,
        crc_shifts(108u32, 8) == 0x44042D73u32,
        crc_shifts(109u32, 8) == 0x33031DE5u32,
        crc_shifts(110u32, 8) == 0xAA0A4C5Fu32,
        crc_shifts(111u32, 8) == 0xDD0D7CC9u32,
        crc_shifts(112u32, 8) == 0x5005713Cu32,
        crc_shifts(113u32, 8) == 0x270241AAu32,
        crc_shifts(114u32, 8) == 0xBE0B1010u32,
        crc_shifts(115u32, 8) == 0xC90C2086u32,
        crc_shifts(116u32, 8) == 0x5768B525u32,
        crc_shifts(117u32, 8) == 0x206F85B3u32,
        crc_shifts(118u32, 8) == 0xB966D409u32,
        crc_shifts(119u32, 8) == 0xCE61E49Fu32,
        crc_shifts(120u32, 8) == 0x5EDEF90Eu32,
        crc_shifts(121u32, 8) == 0x29D9C998u32,
        crc_shifts(122u32, 8) == 0xB0D09822u32,
        crc_shifts(123u32, 8) == 0xC7D7A8B4u32,
        crc_shifts(124u32, 8) == 0x59B33D17u32,
        crc_shifts(125u32, 8) == 0x2EB40D81u32,
        crc_shifts(126u32, 8) == 0xB7BD5C3Bu32,
        crc_shifts(127u32, 8) == 0xC0BA6CADu32,
{
}

proof fn lemma_lookup_fourth(n: int)
    requires
        96 <= n < 128,
    ensures
        CRC_TABLE[n] == crc_shifts(n as u32, 8),
{
    lemma_entries_fourth();
}

proof fn lemma_entries_fifth()
    by (bit_vector)
    ensures
        crc_shifts(128u32, 8) == 0xEDB88320u32,
        crc_shifts(129u32, 8) == 0x9ABFB3B6u32,
        crc_shifts(130u32, 8) == 0x03B6E20Cu32,
        crc_shifts(131u32, 8) == 0x74B1D29Au32,
        crc_shifts(132u32, 8) == 0xEAD54739u32,
        crc_shifts(133u32, 8) == 0x9DD277AFu32,
        crc_shifts(134u32, 8) == 0x04DB2615u32,
        crc_shifts(135u32, 8) == 0x73DC1683u32,
        crc_shifts(136u32, 8) == 0xE3630B12u32,
        crc_shifts(137u32, 8) == 0x94643B84u32,
        crc_shifts(138u32, 8) == 0x0D6D6A3Eu32,
        crc_shifts(139u32, 8) == 0x7A6A5AA8u32,
        crc_shifts(140u32, 8) == 0xE40ECF0Bu32,
        crc_shifts(141u32, 8) == 0x9309FF9Du32,
        crc_shifts(142u32, 8) == 0x0A00AE27u32,
        crc_shifts(143u32, 8) == 0x7D079EB1u32,
        crc_shifts(144u32, 8) == 0xF00F9344u32,
        crc_shifts(145u32, 8) == 0x8708A3D2u32,
        crc_shifts(146u32, 8) == 0x1E01F268u32,
        crc_shifts(147u32, 8) == 0x6906C2FEu32,
        crc_shifts(148u32, 8) == 0xF762575Du32,
        crc_shifts(149u32, 8) == 0x806567CBu32,
        crc_shifts(150u32, 8) == 0x196C3671u32,
        crc_shifts(151u32, 8) == 0x6E6B06E7u32,
        crc_shifts(152u32, 8) == 0xFED41B76u32,
        crc_shifts(153u32, 8) == 0x89D32BE0u32,
        crc_shifts(154u32, 8) == 0x10DA7A5Au32,
        crc_shifts(155u32, 8) == 0x67DD4ACCu32,
        crc_shifts(156u32, 8) == 0xF9B9DF6Fu32,
        crc_shifts(157u32, 8) == 0x8EBEEFF9u32,
        crc_shifts(158u32, 8) == 0x17B7BE43u32,
        crc_shifts(159u32, 8) == 0x60B08ED5u32,
{
}

proof fn lemma_lookup_fifth(n: int)
    requires
        128 <= n < 160,
    ensures
        CRC_TABLE[n] == crc_shifts(n as u32, 8),
{
    lemma_entries_fifth();
}

proof fn lemma_entries_sixth()
    by (bit_vector)
    ensures
        crc_shifts(160u32, 8) == 0xD6D6A3E8u32,
        crc_shifts(161u32, 8) == 0xA1D1937Eu32,
        crc_shifts(162u32, 8) == 0x38D8C2C4u32,
        crc_shifts(163u32, 8) == 0x4FDFF252u32,
        crc_shifts(164u32, 8) == 0xD1BB67F1u32,
        crc_shifts(165u32, 8) == 0xA6BC5767u32,
        crc_shifts(166u32, 8) == 0x3FB506DDu32,
        crc_shifts(167u32, 8) == 0x48B2364Bu32,
        crc_shifts(168u32, 8) == 0xD80D2BDAu32,
        crc_shifts(169u32, 8) == 0xAF0A1B4Cu32,
        crc_shifts(170u32, 8) == 0x36034AF6u32,
        crc_shifts(171u32, 8) == 0x41047A60u32,
        crc_shifts(172u32, 8) == 0xDF60EFC3u32,
        crc_shifts(173u32, 8) == 0xA867DF55u32,
        crc_shifts(174u32, 8) == 0x316E8EEFu32,
        crc_shifts(175u32, 8) == 0x4669BE79u32,
        crc_shifts(176u32, 8) == 0xCB61B38Cu32,
        crc_shifts(177u32, 8) == 0xBC66831Au32,
        crc_shifts(178u32, 8) == 0x256FD2A0u32,
        crc_shifts(179u32, 8) == 0x5268E236u32,
        crc_shifts(180u32, 8) == 0xCC0C7795u32,
        crc_shifts(181u32, 8) == 0xBB0B4703u32,
        crc_shifts(182u32, 8) == 0x220216B9u32,
        crc_shifts(183u32, 8) == 0x5505262Fu32,
        crc_shifts(184u32, 8) == 0xC5BA3BBEu32,
        crc_shifts(185u32, 8) == 0xB2BD0B28u32,
        crc_shifts(186u32, 8) == 0x2BB45A92u32,
        crc_shifts(187u32, 8) == 0x5CB36A04u32,
        crc_shifts(188u32, 8) == 0xC2D7FFA7u32,
        crc_shifts(189u32, 8) == 0xB5D0CF31u32,
        crc_shifts(190u32, 8) == 0x2CD99E8Bu32,
        crc_shifts(191u32, 8) == 0x5BDEAE1Du32,
{
}

proof fn lemma_lookup_sixth(n: int)
    requires
        160 <= n < 192,
    ensures
        CRC_TABLE[n] == crc_shifts(n as u32, 8),
{
    lemma_entries_sixth();
}

proof fn lemma_entries_seventh()
    by (bit_vector)
    ensures
        crc_shifts(192u32, 8) == 0x9B64C2B0u32,
        crc_shifts(193u32, 8) == 0xEC63F226u32,
        crc_shifts(194u32, 8) == 0x756AA39Cu32,
        crc_shifts(195u32, 8) == 0x026D930Au32,
        crc_shifts(196u32, 8) == 0x9C0906A9u32,
        crc_shifts(197u32, 8) == 0xEB0E363Fu32,
        crc_shifts(198u32, 8) == 0x72076785u32,
        crc_shifts(199u32, 8) == 0x05005713u32,
        crc_shifts(200u32, 8) == 0x95BF4A82u32,
        crc_shifts(201u32, 8) == 0xE2B87A14u32,
        crc_shifts(202u32, 8) == 0x7BB12BAEu32,
        crc_shifts(203u32, 8) == 0x0CB61B38u32,
        crc_shifts(204u32, 8) == 0x92D28E9Bu32,
        crc_shifts(205u32, 8) == 0xE5D5BE0Du32,
        crc_shifts(206u32, 8) == 0x7CDCEFB7u32,
        crc_shifts(207u32, 8) == 0x0BDBDF21u32,
        crc_shifts(208u32, 8) == 0x86D3D2D4u32,
        crc_shifts(209u32, 8) == 0xF1D4E242u32,
        crc_shifts(210u32, 8) == 0x68DDB3F8u32,
        crc_shifts(211u32, 8) == 0x1FDA836Eu32,
        crc_shifts(212u32, 8) == 0x81BE16CDu32,
        crc_shifts(213u32, 8) == 0xF6B9265Bu32,
        crc_shifts(214u32, 8) == 0x6FB077E1u32,
        crc_shifts(215u32, 8) == 0x18B74777u32,
        crc_shifts(216u32, 8) == 0x88085AE6u32,
        crc_shifts(217u32, 8) == 0xFF0F6A70u32,
        crc_shifts(218u32, 8) == 0x66063BCAu32,
        crc_shifts(219u32, 8) == 0x11010B5Cu32,
        crc_shifts(220u32, 8) == 0x8F659EFFu32,
        crc_shifts(221u32, 8) == 0xF862AE69u32,
        crc_shifts(222u32, 8) == 0x616BFFD3u32,
        crc_shifts(223u32, 8) == 0x166CCF45u32,
{
}

proof fn lemma_lookup_seventh(n: int)
    requires
        192 <= n < 224,
    ensures
        CRC_TABLE[n] == crc_shifts(n as u32, 8),
{
    lemma_entries_seventh();
}

proof fn lemma_entries_eighth()
    by (bit_vector)
    ensures
        crc_shifts(224u32, 8) == 0xA00AE278u32,
        crc_shifts(225u32, 8) == 0xD70DD2EEu32,
        crc_shifts(226u32, 8) == 0x4E048354u32,
        crc_shifts(227u32, 8) == 0x3903B3C2u32,
        crc_shifts(228u32, 8) == 0xA7672661u32,
        crc_shifts(229u32, 8) == 0xD06016F7u32,
        crc_shifts(230u32, 8) == 0x4969474Du32,
        crc_shifts(231u32, 8) == 0x3E6E77DBu32,
        crc_shifts(232u32, 8) == 0xAED16A4Au32,
        crc_shifts(233u32, 8) == 0xD9D65ADCu32,
        crc_shifts(234u32, 8) == 0x40DF0B66u32,
        crc_shifts(235u32, 8) == 0x37D83BF0u32,
        crc_shifts(236u32, 8) == 0xA9BCAE53u32,
        crc_shifts(237u32, 8) == 0xDEBB9EC5u32,
        crc_shifts(238u32, 8) == 0x47B2CF7Fu32,
        crc_shifts(239u32, 8) == 0x30B5FFE9u32,
        crc_shifts(240u32, 8) == 0xBDBDF21Cu32,
        crc_shifts(241u32, 8) == 0xCABAC28Au32,
        crc_shifts(242u32, 8) == 0x53B39330u32,
        crc_shifts(243u32, 8) == 0x24B4A3A6u32,
        crc_shifts(244u32, 8) == 0xBAD03605u32,
        crc_shifts(245u32, 8) == 0xCDD70693u32,
        crc_shifts(246u32, 8) == 0x54DE5729u32,
        crc_shifts(247u32, 8) == 0x23D967BFu32,
        crc_shifts(248u32, 8) == 0xB3667A2Eu32,
        crc_shifts(249u32, 8) == 0xC4614AB8u32,
        crc_shifts(250u32, 8) == 0x5D681B02u32,
        crc_shifts(251u32, 8) == 0x2A6F2B94u32,
        crc_shifts(252u32, 8) == 0xB40BBE37u32,
        crc_shifts(253u32, 8) == 0xC30C8EA1u32,
        crc_shifts(254u32, 8) == 0x5A05DF1Bu32,
        crc_shifts(255u32, 8) == 0x2D02EF8Du32,
{
}

proof fn lemma_lookup_eighth(n: int)
    requires
        224 <= n < 256,
    ensures
        CRC_TABLE[n] == crc_shifts(n as u32, 8),
{
    lemma_entries_eighth();
}

} // verus!
