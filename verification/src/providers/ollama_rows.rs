//! The rows of the table of Ollama's tags, told apart.
use vstd::prelude::*;
use crate::outside;
use crate::providers::matching;
use crate::providers::ollama;
use crate::text;

verus! {

/// The character at place `i`, zero behind the end.
spec fn char_at(s: Seq<char>, i: int) -> int {
    if 0 <= i < s.len() {
        s[i] as int
    } else {
        0
    }
}

/// The length of a name and some of its characters, as one number. No two names of the table
/// have the same.
spec fn mark_of(s: Seq<char>) -> int {
    let a = s.len() * 128 + char_at(s, 6);
    let b = a * 128 + char_at(s, 8);
    let c = b * 128 + char_at(s, 10);
    let d = c * 128 + char_at(s, 11);
    let e = d * 128 + char_at(s, 14);
    let f = e * 128 + char_at(s, s.len() - 2);
    f * 128 + char_at(s, s.len() - 1)
}

/// A name of the table: ASCII characters without a slash and without capital letters.
spec fn plain_name(s: Seq<char>) -> bool {
    forall|i: int|
        0 <= i < s.len() ==> (#[trigger] s[i] as u32) < 128 && s[i] != '/' && !('A' <= s[i] <= 'Z')
}

/// The number of the row with the mark, among the rows from 0 to 34.
spec fn row_with_1(m: int) -> int {
    if m == 12610966560338420 {
        0
    } else if m == 16551580266246644 {
        1
    } else if m == 12047981278376436 {
        2
    } else if m == 6981431695776226 {
        3
    } else if m == 12047980741505524 {
        4
    } else if m == 6981431158905058 {
        5
    } else if m == 13173846987993588 {
        6
    } else if m == 8107297406458594 {
        7
    } else if m == 12610897840861684 {
        8
    } else if m == 12047948260815348 {
        9
    } else if m == 6981398678215778 {
        10
    } else if m == 13989545304961524 {
        11
    } else if m == 8922995724164194 {
        12
    } else if m == 7540153803355238 {
        13
    } else if m == 14503706042725478 {
        14
    } else if m == 14503705503757414 {
        15
    } else if m == 13940757259596902 {
        16
    } else if m == 8107344107943156 {
        17
    } else if m == 8107309748204788 {
        18
    } else if m == 7544448772748532 {
        19
    } else if m == 7544345693533428 {
        20
    } else if m == 8102946061432052 {
        21
    } else if m == 7540222524929268 {
        22
    } else if m == 7539982006760692 {
        23
    } else if m == 2814749767112372 {
        24
    } else if m == 11179228057645556 {
        25
    } else if m == 12058820448334324 {
        26
    } else if m == 12868077806580212 {
        27
    } else if m == 14556603515482612 {
        28
    } else if m == 2814749767112370 {
        29
    } else if m == 5267828928158690 {
        30
    } else if m == 5829163973876194 {
        31
    } else if m == 13987689992623923 {
        32
    } else if m == 13987689992623922 {
        33
    } else if m == 15115496877430839 {
        34
    } else {
        -1
    }
}

/// The number of the row with the mark, among the rows from 35 to 69.
spec fn row_with_2(m: int) -> int {
    if m == 17930415214729265 {
        35
    } else if m == 20182215028430899 {
        36
    } else if m == 15678379436693559 {
        37
    } else if m == 11124235278440501 {
        38
    } else if m == 15113626928781105 {
        39
    } else if m == 15676575439279921 {
        40
    } else if m == 10913386761892340 {
        41
    } else if m == 11494011722068468 {
        42
    } else if m == 11493874283114996 {
        43
    } else if m == 11493805563638260 {
        44
    } else if m == 10931047667413492 {
        45
    } else if m == 5864485784919010 {
        46
    } else if m == 10930910228460020 {
        47
    } else if m == 12056743548531188 {
        48
    } else if m == 6990193965931234 {
        49
    } else if m == 12056709188792820 {
        50
    } else if m == 6990159606192866 {
        51
    } else if m == 14873223924347380 {
        52
    } else if m == 14873223924314612 {
        53
    } else if m == 14310273970991604 {
        54
    } else if m == 15436173877735924 {
        55
    } else if m == 15436173877719540 {
        56
    } else if m == 13185012038595060 {
        57
    } else if m == 12622062086156788 {
        58
    } else if m == 12622062077768180 {
        59
    } else if m == 4371658232043874 {
        60
    } else if m == 8665984977639778 {
        61
    } else if m == 5294217207224674 {
        62
    } else if m == 7546043166104034 {
        63
    } else if m == 15427342515722295 {
        64
    } else if m == 5285421114202722 {
        65
    } else if m == 4749890231999586 {
        66
    } else if m == 4732298045954658 {
        67
    } else if m == 12615173353068599 {
        68
    } else if m == 8661655652760037 {
        69
    } else {
        -1
    }
}

/// The number of the row with the mark, among the rows from 70 to 104.
spec fn row_with_3(m: int) -> int {
    if m == 5842461192624994 {
        70
    } else if m == 16201471971865076 {
        71
    } else if m == 6427290246323170 {
        72
    } else if m == 8679124515723746 {
        73
    } else if m == 9804942928533602 {
        74
    } else if m == 6440484385856482 {
        75
    } else if m == 9446072531172468 {
        76
    } else if m == 6638212063705907 {
        77
    } else if m == 7764112067008306 {
        78
    } else if m == 6638211526834481 {
        79
    } else if m == 9452961389123896 {
        80
    } else if m == 16208360831244642 {
        81
    } else if m == 16208360831244898 {
        82
    } else if m == 15645410877823970 {
        83
    } else if m == 16771310784666338 {
        84
    } else if m == 16771310784665698 {
        85
    } else if m == 16208360831245410 {
        86
    } else if m == 17897227448709620 {
        87
    } else if m == 13940755538859824 {
        88
    } else if m == 11735546463826164 {
        89
    } else if m == 6068239033446644 {
        90
    } else if m == 6393966131949812 {
        91
    } else if m == 7762083250707426 {
        92
    } else if m == 8325033191545570 {
        93
    } else if m == 10334406927233524 {
        94
    } else if m == 10895622777156084 {
        95
    } else if m == 9207061895737588 {
        96
    } else if m == 10922045415961076 {
        97
    } else if m == 10922114135437812 {
        98
    } else if m == 10922251574391284 {
        99
    } else if m == 9998318367954998 {
        100
    } else if m == 8082610473408309 {
        101
    } else if m == 8643926068909877 {
        102
    } else if m == 7570612354560244 {
        103
    } else if m == 14290860065478448 {
        104
    } else {
        -1
    }
}

/// The number of the row with the mark, among the rows from 105 to 137.
spec fn row_with_4(m: int) -> int {
    if m == 8082605213760097 {
        105
    } else if m == 10625057274157105 {
        106
    } else if m == 15691606854949172 {
        107
    } else if m == 12876857087842613 {
        108
    } else if m == 17336477477992559 {
        109
    } else if m == 12021436498271330 {
        110
    } else if m == 12269545913718581 {
        111
    } else if m == 10075024187479861 {
        112
    } else if m == 12043549945868788 {
        113
    } else if m == 12043549432066548 {
        114
    } else if m == 6976999849466605 {
        115
    } else if m == 8670110027691252 {
        116
    } else if m == 8670109490820340 {
        117
    } else if m == 8948989526931303 {
        118
    } else if m == 11742178029926247 {
        119
    } else if m == 19366312157197414 {
        120
    } else if m == 17677531016411953 {
        121
    } else if m == 9208611841317474 {
        122
    } else if m == 9208611841383522 {
        123
    } else if m == 8645661888649570 {
        124
    } else if m == 13147458702635508 {
        125
    } else if m == 13710408656925172 {
        126
    } else if m == 13710477644837364 {
        127
    } else if m == 12830661649692261 {
        128
    } else if m == 5303391257368685 {
        129
    } else if m == 5281401024813165 {
        130
    } else if m == 5272226974669154 {
        131
    } else if m == 5272226974669666 {
        132
    } else if m == 7524054152002672 {
        133
    } else if m == 6626817247025378 {
        134
    } else if m == 6985657675159906 {
        135
    } else if m == 11458518112334324 {
        136
    } else if m == 11458518112171879 {
        137
    } else {
        -1
    }
}

/// The number of the row with the mark.
spec fn row_with(m: int) -> int {
    if row_with_1(m) >= 0 {
        row_with_1(m)
    } else if row_with_2(m) >= 0 {
        row_with_2(m)
    } else if row_with_3(m) >= 0 {
        row_with_3(m)
    } else {
        row_with_4(m)
    }
}

proof fn lemma_rows_1(i: int)
    requires
        0 <= i <= 34,
    ensures
        plain_name(ollama::ollama_table()[i].0@),
        row_with(mark_of(ollama::ollama_table()[i].0@)) == i,
{
    if i == 0 {
        reveal_strlit("llama-3.3-70b-instruct");
        assert(ollama::ollama_table()[0].0 == "llama-3.3-70b-instruct");
        assert(mark_of("llama-3.3-70b-instruct"@) == 12610966560338420);
    } else if i == 1 {
        reveal_strlit("llama-3.2-11b-vision-instruct");
        assert(ollama::ollama_table()[1].0 == "llama-3.2-11b-vision-instruct");
        assert(mark_of("llama-3.2-11b-vision-instruct"@) == 16551580266246644);
    } else if i == 2 {
        reveal_strlit("llama-3.2-3b-instruct");
        assert(ollama::ollama_table()[2].0 == "llama-3.2-3b-instruct");
        assert(mark_of("llama-3.2-3b-instruct"@) == 12047981278376436);
    } else if i == 3 {
        reveal_strlit("llama-3.2-3b");
        assert(ollama::ollama_table()[3].0 == "llama-3.2-3b");
        assert(mark_of("llama-3.2-3b"@) == 6981431695776226);
    } else if i == 4 {
        reveal_strlit("llama-3.2-1b-instruct");
        assert(ollama::ollama_table()[4].0 == "llama-3.2-1b-instruct");
        assert(mark_of("llama-3.2-1b-instruct"@) == 12047980741505524);
    } else if i == 5 {
        reveal_strlit("llama-3.2-1b");
        assert(ollama::ollama_table()[5].0 == "llama-3.2-1b");
        assert(mark_of("llama-3.2-1b"@) == 6981431158905058);
    } else if i == 6 {
        reveal_strlit("llama-3.1-405b-instruct");
        assert(ollama::ollama_table()[6].0 == "llama-3.1-405b-instruct");
        assert(mark_of("llama-3.1-405b-instruct"@) == 13173846987993588);
    } else if i == 7 {
        reveal_strlit("llama-3.1-405b");
        assert(ollama::ollama_table()[7].0 == "llama-3.1-405b");
        assert(mark_of("llama-3.1-405b"@) == 8107297406458594);
    } else if i == 8 {
        reveal_strlit("llama-3.1-70b-instruct");
        assert(ollama::ollama_table()[8].0 == "llama-3.1-70b-instruct");
        assert(mark_of("llama-3.1-70b-instruct"@) == 12610897840861684);
    } else if i == 9 {
        reveal_strlit("llama-3.1-8b-instruct");
        assert(ollama::ollama_table()[9].0 == "llama-3.1-8b-instruct");
        assert(mark_of("llama-3.1-8b-instruct"@) == 12047948260815348);
    } else if i == 10 {
        reveal_strlit("llama-3.1-8b");
        assert(ollama::ollama_table()[10].0 == "llama-3.1-8b");
        assert(mark_of("llama-3.1-8b"@) == 6981398678215778);
    } else if i == 11 {
        reveal_strlit("meta-llama-3-8b-instruct");
        assert(ollama::ollama_table()[11].0 == "meta-llama-3-8b-instruct");
        assert(mark_of("meta-llama-3-8b-instruct"@) == 13989545304961524);
    } else if i == 12 {
        reveal_strlit("meta-llama-3-8b");
        assert(ollama::ollama_table()[12].0 == "meta-llama-3-8b");
        assert(mark_of("meta-llama-3-8b"@) == 8922995724164194);
    } else if i == 13 {
        reveal_strlit("llama-2-7b-hf");
        assert(ollama::ollama_table()[13].0 == "llama-2-7b-hf");
        assert(mark_of("llama-2-7b-hf"@) == 7540153803355238);
    } else if i == 14 {
        reveal_strlit("codellama-34b-instruct-hf");
        assert(ollama::ollama_table()[14].0 == "codellama-34b-instruct-hf");
        assert(mark_of("codellama-34b-instruct-hf"@) == 14503706042725478);
    } else if i == 15 {
        reveal_strlit("codellama-13b-instruct-hf");
        assert(ollama::ollama_table()[15].0 == "codellama-13b-instruct-hf");
        assert(mark_of("codellama-13b-instruct-hf"@) == 14503705503757414);
    } else if i == 16 {
        reveal_strlit("codellama-7b-instruct-hf");
        assert(ollama::ollama_table()[16].0 == "codellama-7b-instruct-hf");
        assert(mark_of("codellama-7b-instruct-hf"@) == 13940757259596902);
    } else if i == 17 {
        reveal_strlit("gemma-3-27b-it");
        assert(ollama::ollama_table()[17].0 == "gemma-3-27b-it");
        assert(mark_of("gemma-3-27b-it"@) == 8107344107943156);
    } else if i == 18 {
        reveal_strlit("gemma-3-12b-it");
        assert(ollama::ollama_table()[18].0 == "gemma-3-12b-it");
        assert(mark_of("gemma-3-12b-it"@) == 8107309748204788);
    } else if i == 19 {
        reveal_strlit("gemma-3-4b-it");
        assert(ollama::ollama_table()[19].0 == "gemma-3-4b-it");
        assert(mark_of("gemma-3-4b-it"@) == 7544448772748532);
    } else if i == 20 {
        reveal_strlit("gemma-3-1b-it");
        assert(ollama::ollama_table()[20].0 == "gemma-3-1b-it");
        assert(mark_of("gemma-3-1b-it"@) == 7544345693533428);
    } else if i == 21 {
        reveal_strlit("gemma-2-27b-it");
        assert(ollama::ollama_table()[21].0 == "gemma-2-27b-it");
        assert(mark_of("gemma-2-27b-it"@) == 8102946061432052);
    } else if i == 22 {
        reveal_strlit("gemma-2-9b-it");
        assert(ollama::ollama_table()[22].0 == "gemma-2-9b-it");
        assert(mark_of("gemma-2-9b-it"@) == 7540222524929268);
    } else if i == 23 {
        reveal_strlit("gemma-2-2b-it");
        assert(ollama::ollama_table()[23].0 == "gemma-2-2b-it");
        assert(mark_of("gemma-2-2b-it"@) == 7539982006760692);
    } else if i == 24 {
        reveal_strlit("phi-4");
        assert(ollama::ollama_table()[24].0 == "phi-4");
        assert(mark_of("phi-4"@) == 2814749767112372);
    } else if i == 25 {
        reveal_strlit("phi-4-mini-instruct");
        assert(ollama::ollama_table()[25].0 == "phi-4-mini-instruct");
        assert(mark_of("phi-4-mini-instruct"@) == 11179228057645556);
    } else if i == 26 {
        reveal_strlit("phi-3.5-mini-instruct");
        assert(ollama::ollama_table()[26].0 == "phi-3.5-mini-instruct");
        assert(mark_of("phi-3.5-mini-instruct"@) == 12058820448334324);
    } else if i == 27 {
        reveal_strlit("phi-3-mini-4k-instruct");
        assert(ollama::ollama_table()[27].0 == "phi-3-mini-4k-instruct");
        assert(mark_of("phi-3-mini-4k-instruct"@) == 12868077806580212);
    } else if i == 28 {
        reveal_strlit("phi-3-medium-14b-instruct");
        assert(ollama::ollama_table()[28].0 == "phi-3-medium-14b-instruct");
        assert(mark_of("phi-3-medium-14b-instruct"@) == 14556603515482612);
    } else if i == 29 {
        reveal_strlit("phi-2");
        assert(ollama::ollama_table()[29].0 == "phi-2");
        assert(mark_of("phi-2"@) == 2814749767112370);
    } else if i == 30 {
        reveal_strlit("orca-2-7b");
        assert(ollama::ollama_table()[30].0 == "orca-2-7b");
        assert(mark_of("orca-2-7b"@) == 5267828928158690);
    } else if i == 31 {
        reveal_strlit("orca-2-13b");
        assert(ollama::ollama_table()[31].0 == "orca-2-13b");
        assert(mark_of("orca-2-13b"@) == 5829163973876194);
    } else if i == 32 {
        reveal_strlit("mistral-7b-instruct-v0.3");
        assert(ollama::ollama_table()[32].0 == "mistral-7b-instruct-v0.3");
        assert(mark_of("mistral-7b-instruct-v0.3"@) == 13987689992623923);
    } else if i == 33 {
        reveal_strlit("mistral-7b-instruct-v0.2");
        assert(ollama::ollama_table()[33].0 == "mistral-7b-instruct-v0.2");
        assert(mark_of("mistral-7b-instruct-v0.2"@) == 13987689992623922);
    } else if i == 34 {
        reveal_strlit("mistral-nemo-instruct-2407");
        assert(ollama::ollama_table()[34].0 == "mistral-nemo-instruct-2407");
        assert(mark_of("mistral-nemo-instruct-2407"@) == 15115496877430839);
    }
}

proof fn lemma_rows_2(i: int)
    requires
        35 <= i <= 69,
    ensures
        plain_name(ollama::ollama_table()[i].0@),
        row_with(mark_of(ollama::ollama_table()[i].0@)) == i,
{
    if i == 35 {
        reveal_strlit("mistral-small-24b-instruct-2501");
        assert(ollama::ollama_table()[35].0 == "mistral-small-24b-instruct-2501");
        assert(mark_of("mistral-small-24b-instruct-2501"@) == 17930415214729265);
    } else if i == 36 {
        reveal_strlit("mistral-small-3.1-24b-instruct-2503");
        assert(ollama::ollama_table()[36].0 == "mistral-small-3.1-24b-instruct-2503");
        assert(mark_of("mistral-small-3.1-24b-instruct-2503"@) == 20182215028430899);
    } else if i == 37 {
        reveal_strlit("mistral-large-instruct-2407");
        assert(ollama::ollama_table()[37].0 == "mistral-large-instruct-2407");
        assert(mark_of("mistral-large-instruct-2407"@) == 15678379436693559);
    } else if i == 38 {
        reveal_strlit("devstral-small-2505");
        assert(ollama::ollama_table()[38].0 == "devstral-small-2505");
        assert(mark_of("devstral-small-2505"@) == 11124235278440501);
    } else if i == 39 {
        reveal_strlit("mixtral-8x7b-instruct-v0.1");
        assert(ollama::ollama_table()[39].0 == "mixtral-8x7b-instruct-v0.1");
        assert(mark_of("mixtral-8x7b-instruct-v0.1"@) == 15113626928781105);
    } else if i == 40 {
        reveal_strlit("mixtral-8x22b-instruct-v0.1");
        assert(ollama::ollama_table()[40].0 == "mixtral-8x22b-instruct-v0.1");
        assert(mark_of("mixtral-8x22b-instruct-v0.1"@) == 15676575439279921);
    } else if i == 41 {
        reveal_strlit("qwen2-1.5b-instruct");
        assert(ollama::ollama_table()[41].0 == "qwen2-1.5b-instruct");
        assert(mark_of("qwen2-1.5b-instruct"@) == 10913386761892340);
    } else if i == 42 {
        reveal_strlit("qwen2.5-72b-instruct");
        assert(ollama::ollama_table()[42].0 == "qwen2.5-72b-instruct");
        assert(mark_of("qwen2.5-72b-instruct"@) == 11494011722068468);
    } else if i == 43 {
        reveal_strlit("qwen2.5-32b-instruct");
        assert(ollama::ollama_table()[43].0 == "qwen2.5-32b-instruct");
        assert(mark_of("qwen2.5-32b-instruct"@) == 11493874283114996);
    } else if i == 44 {
        reveal_strlit("qwen2.5-14b-instruct");
        assert(ollama::ollama_table()[44].0 == "qwen2.5-14b-instruct");
        assert(mark_of("qwen2.5-14b-instruct"@) == 11493805563638260);
    } else if i == 45 {
        reveal_strlit("qwen2.5-7b-instruct");
        assert(ollama::ollama_table()[45].0 == "qwen2.5-7b-instruct");
        assert(mark_of("qwen2.5-7b-instruct"@) == 10931047667413492);
    } else if i == 46 {
        reveal_strlit("qwen2.5-7b");
        assert(ollama::ollama_table()[46].0 == "qwen2.5-7b");
        assert(mark_of("qwen2.5-7b"@) == 5864485784919010);
    } else if i == 47 {
        reveal_strlit("qwen2.5-3b-instruct");
        assert(ollama::ollama_table()[47].0 == "qwen2.5-3b-instruct");
        assert(mark_of("qwen2.5-3b-instruct"@) == 10930910228460020);
    } else if i == 48 {
        reveal_strlit("qwen2.5-1.5b-instruct");
        assert(ollama::ollama_table()[48].0 == "qwen2.5-1.5b-instruct");
        assert(mark_of("qwen2.5-1.5b-instruct"@) == 12056743548531188);
    } else if i == 49 {
        reveal_strlit("qwen2.5-1.5b");
        assert(ollama::ollama_table()[49].0 == "qwen2.5-1.5b");
        assert(mark_of("qwen2.5-1.5b"@) == 6990193965931234);
    } else if i == 50 {
        reveal_strlit("qwen2.5-0.5b-instruct");
        assert(ollama::ollama_table()[50].0 == "qwen2.5-0.5b-instruct");
        assert(mark_of("qwen2.5-0.5b-instruct"@) == 12056709188792820);
    } else if i == 51 {
        reveal_strlit("qwen2.5-0.5b");
        assert(ollama::ollama_table()[51].0 == "qwen2.5-0.5b");
        assert(mark_of("qwen2.5-0.5b"@) == 6990159606192866);
    } else if i == 52 {
        reveal_strlit("qwen2.5-coder-32b-instruct");
        assert(ollama::ollama_table()[52].0 == "qwen2.5-coder-32b-instruct");
        assert(mark_of("qwen2.5-coder-32b-instruct"@) == 14873223924347380);
    } else if i == 53 {
        reveal_strlit("qwen2.5-coder-14b-instruct");
        assert(ollama::ollama_table()[53].0 == "qwen2.5-coder-14b-instruct");
        assert(mark_of("qwen2.5-coder-14b-instruct"@) == 14873223924314612);
    } else if i == 54 {
        reveal_strlit("qwen2.5-coder-7b-instruct");
        assert(ollama::ollama_table()[54].0 == "qwen2.5-coder-7b-instruct");
        assert(mark_of("qwen2.5-coder-7b-instruct"@) == 14310273970991604);
    } else if i == 55 {
        reveal_strlit("qwen2.5-coder-1.5b-instruct");
        assert(ollama::ollama_table()[55].0 == "qwen2.5-coder-1.5b-instruct");
        assert(mark_of("qwen2.5-coder-1.5b-instruct"@) == 15436173877735924);
    } else if i == 56 {
        reveal_strlit("qwen2.5-coder-0.5b-instruct");
        assert(ollama::ollama_table()[56].0 == "qwen2.5-coder-0.5b-instruct");
        assert(mark_of("qwen2.5-coder-0.5b-instruct"@) == 15436173877719540);
    } else if i == 57 {
        reveal_strlit("qwen2.5-vl-72b-instruct");
        assert(ollama::ollama_table()[57].0 == "qwen2.5-vl-72b-instruct");
        assert(mark_of("qwen2.5-vl-72b-instruct"@) == 13185012038595060);
    } else if i == 58 {
        reveal_strlit("qwen2.5-vl-7b-instruct");
        assert(ollama::ollama_table()[58].0 == "qwen2.5-vl-7b-instruct");
        assert(mark_of("qwen2.5-vl-7b-instruct"@) == 12622062086156788);
    } else if i == 59 {
        reveal_strlit("qwen2.5-vl-3b-instruct");
        assert(ollama::ollama_table()[59].0 == "qwen2.5-vl-3b-instruct");
        assert(mark_of("qwen2.5-vl-3b-instruct"@) == 12622062077768180);
    } else if i == 60 {
        reveal_strlit("qwq-32b");
        assert(ollama::ollama_table()[60].0 == "qwq-32b");
        assert(mark_of("qwq-32b"@) == 4371658232043874);
    } else if i == 61 {
        reveal_strlit("qwen3-235b-a22b");
        assert(ollama::ollama_table()[61].0 == "qwen3-235b-a22b");
        assert(mark_of("qwen3-235b-a22b"@) == 8665984977639778);
    } else if i == 62 {
        reveal_strlit("qwen3-32b");
        assert(ollama::ollama_table()[62].0 == "qwen3-32b");
        assert(mark_of("qwen3-32b"@) == 5294217207224674);
    } else if i == 63 {
        reveal_strlit("qwen3-30b-a3b");
        assert(ollama::ollama_table()[63].0 == "qwen3-30b-a3b");
        assert(mark_of("qwen3-30b-a3b"@) == 7546043166104034);
    } else if i == 64 {
        reveal_strlit("qwen3-30b-a3b-instruct-2507");
        assert(ollama::ollama_table()[64].0 == "qwen3-30b-a3b-instruct-2507");
        assert(mark_of("qwen3-30b-a3b-instruct-2507"@) == 15427342515722295);
    } else if i == 65 {
        reveal_strlit("qwen3-14b");
        assert(ollama::ollama_table()[65].0 == "qwen3-14b");
        assert(mark_of("qwen3-14b"@) == 5285421114202722);
    } else if i == 66 {
        reveal_strlit("qwen3-8b");
        assert(ollama::ollama_table()[66].0 == "qwen3-8b");
        assert(mark_of("qwen3-8b"@) == 4749890231999586);
    } else if i == 67 {
        reveal_strlit("qwen3-4b");
        assert(ollama::ollama_table()[67].0 == "qwen3-4b");
        assert(mark_of("qwen3-4b"@) == 4732298045954658);
    } else if i == 68 {
        reveal_strlit("qwen3-4b-instruct-2507");
        assert(ollama::ollama_table()[68].0 == "qwen3-4b-instruct-2507");
        assert(mark_of("qwen3-4b-instruct-2507"@) == 12615173353068599);
    } else if i == 69 {
        reveal_strlit("qwen3-1.7b-base");
        assert(ollama::ollama_table()[69].0 == "qwen3-1.7b-base");
        assert(mark_of("qwen3-1.7b-base"@) == 8661655652760037);
    }
}

proof fn lemma_rows_3(i: int)
    requires
        70 <= i <= 104,
    ensures
        plain_name(ollama::ollama_table()[i].0@),
        row_with(mark_of(ollama::ollama_table()[i].0@)) == i,
{
    if i == 70 {
        reveal_strlit("qwen3-0.6b");
        assert(ollama::ollama_table()[70].0 == "qwen3-0.6b");
        assert(mark_of("qwen3-0.6b"@) == 5842461192624994);
    } else if i == 71 {
        reveal_strlit("qwen3-coder-30b-a3b-instruct");
        assert(ollama::ollama_table()[71].0 == "qwen3-coder-30b-a3b-instruct");
        assert(mark_of("qwen3-coder-30b-a3b-instruct"@) == 16201471971865076);
    } else if i == 72 {
        reveal_strlit("qwen3.5-27b");
        assert(ollama::ollama_table()[72].0 == "qwen3.5-27b");
        assert(mark_of("qwen3.5-27b"@) == 6427290246323170);
    } else if i == 73 {
        reveal_strlit("qwen3.5-35b-a3b");
        assert(ollama::ollama_table()[73].0 == "qwen3.5-35b-a3b");
        assert(mark_of("qwen3.5-35b-a3b"@) == 8679124515723746);
    } else if i == 74 {
        reveal_strlit("qwen3.5-122b-a10b");
        assert(ollama::ollama_table()[74].0 == "qwen3.5-122b-a10b");
        assert(mark_of("qwen3.5-122b-a10b"@) == 9804942928533602);
    } else if i == 75 {
        reveal_strlit("qwen3.8-27b");
        assert(ollama::ollama_table()[75].0 == "qwen3.8-27b");
        assert(mark_of("qwen3.8-27b"@) == 6440484385856482);
    } else if i == 76 {
        reveal_strlit("qwen3-coder-next");
        assert(ollama::ollama_table()[76].0 == "qwen3-coder-next");
        assert(mark_of("qwen3-coder-next"@) == 9446072531172468);
    } else if i == 77 {
        reveal_strlit("deepseek-v3");
        assert(ollama::ollama_table()[77].0 == "deepseek-v3");
        assert(mark_of("deepseek-v3"@) == 6638212063705907);
    } else if i == 78 {
        reveal_strlit("deepseek-v3.2");
        assert(ollama::ollama_table()[78].0 == "deepseek-v3.2");
        assert(mark_of("deepseek-v3.2"@) == 7764112067008306);
    } else if i == 79 {
        reveal_strlit("deepseek-r1");
        assert(ollama::ollama_table()[79].0 == "deepseek-r1");
        assert(mark_of("deepseek-r1"@) == 6638211526834481);
    } else if i == 80 {
        reveal_strlit("deepseek-r1-0528");
        assert(ollama::ollama_table()[80].0 == "deepseek-r1-0528");
        assert(mark_of("deepseek-r1-0528"@) == 9452961389123896);
    } else if i == 81 {
        reveal_strlit("deepseek-r1-distill-qwen-32b");
        assert(ollama::ollama_table()[81].0 == "deepseek-r1-distill-qwen-32b");
        assert(mark_of("deepseek-r1-distill-qwen-32b"@) == 16208360831244642);
    } else if i == 82 {
        reveal_strlit("deepseek-r1-distill-qwen-14b");
        assert(ollama::ollama_table()[82].0 == "deepseek-r1-distill-qwen-14b");
        assert(mark_of("deepseek-r1-distill-qwen-14b"@) == 16208360831244898);
    } else if i == 83 {
        reveal_strlit("deepseek-r1-distill-qwen-7b");
        assert(ollama::ollama_table()[83].0 == "deepseek-r1-distill-qwen-7b");
        assert(mark_of("deepseek-r1-distill-qwen-7b"@) == 15645410877823970);
    } else if i == 84 {
        reveal_strlit("deepseek-r1-distill-qwen-1.5b");
        assert(ollama::ollama_table()[84].0 == "deepseek-r1-distill-qwen-1.5b");
        assert(mark_of("deepseek-r1-distill-qwen-1.5b"@) == 16771310784666338);
    } else if i == 85 {
        reveal_strlit("deepseek-r1-distill-llama-70b");
        assert(ollama::ollama_table()[85].0 == "deepseek-r1-distill-llama-70b");
        assert(mark_of("deepseek-r1-distill-llama-70b"@) == 16771310784665698);
    } else if i == 86 {
        reveal_strlit("deepseek-r1-distill-llama-8b");
        assert(ollama::ollama_table()[86].0 == "deepseek-r1-distill-llama-8b");
        assert(mark_of("deepseek-r1-distill-llama-8b"@) == 16208360831245410);
    } else if i == 87 {
        reveal_strlit("deepseek-coder-v2-lite-instruct");
        assert(ollama::ollama_table()[87].0 == "deepseek-coder-v2-lite-instruct");
        assert(mark_of("deepseek-coder-v2-lite-instruct"@) == 17897227448709620);
    } else if i == 88 {
        reveal_strlit("tinyllama-1.1b-chat-v1.0");
        assert(ollama::ollama_table()[88].0 == "tinyllama-1.1b-chat-v1.0");
        assert(mark_of("tinyllama-1.1b-chat-v1.0"@) == 13940755538859824);
    } else if i == 89 {
        reveal_strlit("stablelm-2-1_6b-chat");
        assert(ollama::ollama_table()[89].0 == "stablelm-2-1_6b-chat");
        assert(mark_of("stablelm-2-1_6b-chat"@) == 11735546463826164);
    } else if i == 90 {
        reveal_strlit("yi-6b-chat");
        assert(ollama::ollama_table()[90].0 == "yi-6b-chat");
        assert(mark_of("yi-6b-chat"@) == 6068239033446644);
    } else if i == 91 {
        reveal_strlit("yi-34b-chat");
        assert(ollama::ollama_table()[91].0 == "yi-34b-chat");
        assert(mark_of("yi-34b-chat"@) == 6393966131949812);
    } else if i == 92 {
        reveal_strlit("starcoder2-7b");
        assert(ollama::ollama_table()[92].0 == "starcoder2-7b");
        assert(mark_of("starcoder2-7b"@) == 7762083250707426);
    } else if i == 93 {
        reveal_strlit("starcoder2-15b");
        assert(ollama::ollama_table()[93].0 == "starcoder2-15b");
        assert(mark_of("starcoder2-15b"@) == 8325033191545570);
    } else if i == 94 {
        reveal_strlit("falcon-7b-instruct");
        assert(ollama::ollama_table()[94].0 == "falcon-7b-instruct");
        assert(mark_of("falcon-7b-instruct"@) == 10334406927233524);
    } else if i == 95 {
        reveal_strlit("falcon-40b-instruct");
        assert(ollama::ollama_table()[95].0 == "falcon-40b-instruct");
        assert(mark_of("falcon-40b-instruct"@) == 10895622777156084);
    } else if i == 96 {
        reveal_strlit("falcon-180b-chat");
        assert(ollama::ollama_table()[96].0 == "falcon-180b-chat");
        assert(mark_of("falcon-180b-chat"@) == 9207061895737588);
    } else if i == 97 {
        reveal_strlit("falcon3-1b-instruct");
        assert(ollama::ollama_table()[97].0 == "falcon3-1b-instruct");
        assert(mark_of("falcon3-1b-instruct"@) == 10922045415961076);
    } else if i == 98 {
        reveal_strlit("falcon3-3b-instruct");
        assert(ollama::ollama_table()[98].0 == "falcon3-3b-instruct");
        assert(mark_of("falcon3-3b-instruct"@) == 10922114135437812);
    } else if i == 99 {
        reveal_strlit("falcon3-7b-instruct");
        assert(ollama::ollama_table()[99].0 == "falcon3-7b-instruct");
        assert(mark_of("falcon3-7b-instruct"@) == 10922251574391284);
    } else if i == 100 {
        reveal_strlit("openchat-3.5-0106");
        assert(ollama::ollama_table()[100].0 == "openchat-3.5-0106");
        assert(mark_of("openchat-3.5-0106"@) == 9998318367954998);
    } else if i == 101 {
        reveal_strlit("vicuna-7b-v1.5");
        assert(ollama::ollama_table()[101].0 == "vicuna-7b-v1.5");
        assert(mark_of("vicuna-7b-v1.5"@) == 8082610473408309);
    } else if i == 102 {
        reveal_strlit("vicuna-13b-v1.5");
        assert(ollama::ollama_table()[102].0 == "vicuna-13b-v1.5");
        assert(mark_of("vicuna-13b-v1.5"@) == 8643926068909877);
    } else if i == 103 {
        reveal_strlit("glm-4-9b-chat");
        assert(ollama::ollama_table()[103].0 == "glm-4-9b-chat");
        assert(mark_of("glm-4-9b-chat"@) == 7570612354560244);
    } else if i == 104 {
        reveal_strlit("solar-10.7b-instruct-v1.0");
        assert(ollama::ollama_table()[104].0 == "solar-10.7b-instruct-v1.0");
        assert(mark_of("solar-10.7b-instruct-v1.0"@) == 14290860065478448);
    }
}

proof fn lemma_rows_4(i: int)
    requires
        105 <= i <= 137,
    ensures
        plain_name(ollama::ollama_table()[i].0@),
        row_with(mark_of(ollama::ollama_table()[i].0@)) == i,
{
    if i == 105 {
        reveal_strlit("zephyr-7b-beta");
        assert(ollama::ollama_table()[105].0 == "zephyr-7b-beta");
        assert(mark_of("zephyr-7b-beta"@) == 8082605213760097);
    } else if i == 106 {
        reveal_strlit("c4ai-command-r-v01");
        assert(ollama::ollama_table()[106].0 == "c4ai-command-r-v01");
        assert(mark_of("c4ai-command-r-v01"@) == 10625057274157105);
    } else if i == 107 {
        reveal_strlit("c4ai-command-r-plus-08-2024");
        assert(ollama::ollama_table()[107].0 == "c4ai-command-r-plus-08-2024");
        assert(mark_of("c4ai-command-r-plus-08-2024"@) == 15691606854949172);
    } else if i == 108 {
        reveal_strlit("c4ai-command-a-03-2025");
        assert(ollama::ollama_table()[108].0 == "c4ai-command-a-03-2025");
        assert(mark_of("c4ai-command-a-03-2025"@) == 12876857087842613);
    } else if i == 109 {
        reveal_strlit("nous-hermes-2-mixtral-8x7b-dpo");
        assert(ollama::ollama_table()[109].0 == "nous-hermes-2-mixtral-8x7b-dpo");
        assert(mark_of("nous-hermes-2-mixtral-8x7b-dpo"@) == 17336477477992559);
    } else if i == 110 {
        reveal_strlit("hermes-3-llama-3.1-8b");
        assert(ollama::ollama_table()[110].0 == "hermes-3-llama-3.1-8b");
        assert(mark_of("hermes-3-llama-3.1-8b"@) == 12021436498271330);
    } else if i == 111 {
        reveal_strlit("nomic-embed-text-v1.5");
        assert(ollama::ollama_table()[111].0 == "nomic-embed-text-v1.5");
        assert(mark_of("nomic-embed-text-v1.5"@) == 12269545913718581);
    } else if i == 112 {
        reveal_strlit("bge-large-en-v1.5");
        assert(ollama::ollama_table()[112].0 == "bge-large-en-v1.5");
        assert(mark_of("bge-large-en-v1.5"@) == 10075024187479861);
    } else if i == 113 {
        reveal_strlit("smollm2-1.7b-instruct");
        assert(ollama::ollama_table()[113].0 == "smollm2-1.7b-instruct");
        assert(mark_of("smollm2-1.7b-instruct"@) == 12043549945868788);
    } else if i == 114 {
        reveal_strlit("smollm2-135m-instruct");
        assert(ollama::ollama_table()[114].0 == "smollm2-135m-instruct");
        assert(mark_of("smollm2-135m-instruct"@) == 12043549432066548);
    } else if i == 115 {
        reveal_strlit("smollm2-135m");
        assert(ollama::ollama_table()[115].0 == "smollm2-135m");
        assert(mark_of("smollm2-135m"@) == 6976999849466605);
    } else if i == 116 {
        reveal_strlit("gemma-3n-e4b-it");
        assert(ollama::ollama_table()[116].0 == "gemma-3n-e4b-it");
        assert(mark_of("gemma-3n-e4b-it"@) == 8670110027691252);
    } else if i == 117 {
        reveal_strlit("gemma-3n-e2b-it");
        assert(ollama::ollama_table()[117].0 == "gemma-3n-e2b-it");
        assert(mark_of("gemma-3n-e2b-it"@) == 8670109490820340);
    } else if i == 118 {
        reveal_strlit("phi-4-reasoning");
        assert(ollama::ollama_table()[118].0 == "phi-4-reasoning");
        assert(mark_of("phi-4-reasoning"@) == 8948989526931303);
    } else if i == 119 {
        reveal_strlit("phi-4-mini-reasoning");
        assert(ollama::ollama_table()[119].0 == "phi-4-mini-reasoning");
        assert(mark_of("phi-4-mini-reasoning"@) == 11742178029926247);
    } else if i == 120 {
        reveal_strlit("llama-3.1-nemotron-70b-instruct-hf");
        assert(ollama::ollama_table()[120].0 == "llama-3.1-nemotron-70b-instruct-hf");
        assert(mark_of("llama-3.1-nemotron-70b-instruct-hf"@) == 19366312157197414);
    } else if i == 121 {
        reveal_strlit("llama-3.3-nemotron-super-49b-v1");
        assert(ollama::ollama_table()[121].0 == "llama-3.3-nemotron-super-49b-v1");
        assert(mark_of("llama-3.3-nemotron-super-49b-v1"@) == 17677531016411953);
    } else if i == 122 {
        reveal_strlit("exaone-deep-2.4b");
        assert(ollama::ollama_table()[122].0 == "exaone-deep-2.4b");
        assert(mark_of("exaone-deep-2.4b"@) == 9208611841317474);
    } else if i == 123 {
        reveal_strlit("exaone-deep-7.8b");
        assert(ollama::ollama_table()[123].0 == "exaone-deep-7.8b");
        assert(mark_of("exaone-deep-7.8b"@) == 9208611841383522);
    } else if i == 124 {
        reveal_strlit("exaone-deep-32b");
        assert(ollama::ollama_table()[124].0 == "exaone-deep-32b");
        assert(mark_of("exaone-deep-32b"@) == 8645661888649570);
    } else if i == 125 {
        reveal_strlit("olmo-2-1124-7b-instruct");
        assert(ollama::ollama_table()[125].0 == "olmo-2-1124-7b-instruct");
        assert(mark_of("olmo-2-1124-7b-instruct"@) == 13147458702635508);
    } else if i == 126 {
        reveal_strlit("olmo-2-1124-13b-instruct");
        assert(ollama::ollama_table()[126].0 == "olmo-2-1124-13b-instruct");
        assert(mark_of("olmo-2-1124-13b-instruct"@) == 13710408656925172);
    } else if i == 127 {
        reveal_strlit("olmo-2-0325-32b-instruct");
        assert(ollama::ollama_table()[127].0 == "olmo-2-0325-32b-instruct");
        assert(mark_of("olmo-2-0325-32b-instruct"@) == 13710477644837364);
    } else if i == 128 {
        reveal_strlit("deepseek-v3.2-speciale");
        assert(ollama::ollama_table()[128].0 == "deepseek-v3.2-speciale");
        assert(mark_of("deepseek-v3.2-speciale"@) == 12830661649692261);
    } else if i == 129 {
        reveal_strlit("lfm2-350m");
        assert(ollama::ollama_table()[129].0 == "lfm2-350m");
        assert(mark_of("lfm2-350m"@) == 5303391257368685);
    } else if i == 130 {
        reveal_strlit("lfm2-700m");
        assert(ollama::ollama_table()[130].0 == "lfm2-700m");
        assert(mark_of("lfm2-700m"@) == 5281401024813165);
    } else if i == 131 {
        reveal_strlit("lfm2-1.2b");
        assert(ollama::ollama_table()[131].0 == "lfm2-1.2b");
        assert(mark_of("lfm2-1.2b"@) == 5272226974669154);
    } else if i == 132 {
        reveal_strlit("lfm2-2.6b");
        assert(ollama::ollama_table()[132].0 == "lfm2-2.6b");
        assert(mark_of("lfm2-2.6b"@) == 5272226974669666);
    } else if i == 133 {
        reveal_strlit("lfm2-2.6b-exp");
        assert(ollama::ollama_table()[133].0 == "lfm2-2.6b-exp");
        assert(mark_of("lfm2-2.6b-exp"@) == 7524054152002672);
    } else if i == 134 {
        reveal_strlit("lfm2-8b-a1b");
        assert(ollama::ollama_table()[134].0 == "lfm2-8b-a1b");
        assert(mark_of("lfm2-8b-a1b"@) == 6626817247025378);
    } else if i == 135 {
        reveal_strlit("lfm2-24b-a2b");
        assert(ollama::ollama_table()[135].0 == "lfm2-24b-a2b");
        assert(mark_of("lfm2-24b-a2b"@) == 6985657675159906);
    } else if i == 136 {
        reveal_strlit("lfm2.5-1.2b-instruct");
        assert(ollama::ollama_table()[136].0 == "lfm2.5-1.2b-instruct");
        assert(mark_of("lfm2.5-1.2b-instruct"@) == 11458518112334324);
    } else if i == 137 {
        reveal_strlit("lfm2.5-1.2b-thinking");
        assert(ollama::ollama_table()[137].0 == "lfm2.5-1.2b-thinking");
        assert(mark_of("lfm2.5-1.2b-thinking"@) == 11458518112171879);
    }
}

proof fn lemma_rows(i: int)
    requires
        0 <= i < ollama::ollama_table().len(),
    ensures
        plain_name(ollama::ollama_table()[i].0@),
        row_with(mark_of(ollama::ollama_table()[i].0@)) == i,
{
    if i <= 34 {
        lemma_rows_1(i);
    } else if i <= 69 {
        lemma_rows_2(i);
    } else if i <= 104 {
        lemma_rows_3(i);
    } else {
        lemma_rows_4(i);
    }
}

proof fn lemma_found_from(i: int, j: int)
    requires
        0 <= j <= i < ollama::ollama_table().len(),
    ensures
        ollama::mapped_tag_from(ollama::ollama_table()[i].0@, j) == Some(
            ollama::ollama_table()[i].1@,
        ),
    decreases i - j,
{
    if j < i {
        lemma_rows(i);
        lemma_rows(j);
        lemma_found_from(i, j + 1);
    }
}

proof fn lemma_plain_name_stays(s: Seq<char>, i: int)
    requires
        plain_name(s),
        0 <= i <= s.len(),
    ensures
        text::rfind_any_before(s, seq!['/'], i) is None,
    decreases i,
{
    if i > 0 {
        assert(s[i - 1] != '/');
        assert(seq!['/'] =~= Seq::new(1, |k: int| '/'));
        assert(!seq!['/'].contains(s[i - 1]));
        lemma_plain_name_stays(s, i - 1);
    }
}

/// Each row of the table is found under its own name, and having pulled exactly its tag marks
/// the model of that name installed.
pub proof fn law_each_row_is_found(i: int, m: ollama::OllamaModelView)
    requires
        0 <= i < ollama::ollama_table().len(),
        m.name == ollama::ollama_table()[i].1@,
        m.size > 0,
    ensures
        ollama::mapped_tag(ollama::ollama_table()[i].0@) == Some(ollama::ollama_table()[i].1@),
        ollama::installed_ollama(
            ollama::ollama_table()[i].0@,
            None,
            ollama::installed_names(seq![m]),
        ),
{
    let name = ollama::ollama_table()[i].0@;
    lemma_rows(i);
    lemma_plain_name_stays(name, name.len() as int);
    assert(text::after_last(name, seq!['/']) == name);
    assert(text::is_ascii_text(name));
    assert(text::ascii_lowercase(name) =~= name);
    assert(outside::lowercase(name) == name);
    assert(matching::repo_lower(name) == name);
    lemma_found_from(i, 0);
    ollama::law_mapped_model_is_detected(name, m);
}

} // verus!
