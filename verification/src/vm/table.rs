//! The built-in words.

use crate::types::{Entry, Instruction, Op, WordV};
use crate::text::text;
use crate::vm::state::{PrimName, VmV, VM};
use vstd::prelude::*;

verus! {

/// How many built-in words there are.
pub const WORD_COUNT: usize = 187;

/// The built-in words from the first on: name, number, and whether the word is run at compile time.
pub open spec fn words_0(i: int) -> (Seq<char>, usize, bool) {
    if i == 0 {
        ("DUP"@, 0, false)
    } else if i == 1 {
        ("DROP"@, 1, false)
    } else if i == 2 {
        ("SWAP"@, 2, false)
    } else if i == 3 {
        ("OVER"@, 3, false)
    } else if i == 4 {
        ("ROT"@, 4, false)
    } else if i == 5 {
        ("@"@, 5, false)
    } else if i == 6 {
        ("!"@, 6, false)
    } else if i == 7 {
        ("+"@, 7, false)
    } else if i == 8 {
        ("-"@, 8, false)
    } else if i == 9 {
        ("*"@, 9, false)
    } else if i == 10 {
        ("/"@, 10, false)
    } else if i == 11 {
        ("MOD"@, 11, false)
    } else if i == 12 {
        ("="@, 12, false)
    } else if i == 13 {
        ("<"@, 13, false)
    } else if i == 14 {
        (">"@, 14, false)
    } else if i == 15 {
        ("AND"@, 15, false)
    } else if i == 16 {
        ("OR"@, 16, false)
    } else if i == 17 {
        ("NOT"@, 17, false)
    } else if i == 18 {
        ("EMIT"@, 18, false)
    } else if i == 19 {
        ("KEY"@, 19, false)
    } else if i == 20 {
        ("CR"@, 20, false)
    } else if i == 21 {
        ("."@, 21, false)
    } else if i == 22 {
        (".S"@, 22, false)
    } else if i == 23 {
        (":"@, 23, false)
    } else if i == 24 {
        (";"@, 24, true)
    } else if i == 25 {
        ("CREATE"@, 25, false)
    } else if i == 26 {
        ("DOES>"@, 26, true)
    } else if i == 27 {
        ("VARIABLE"@, 27, false)
    } else if i == 28 {
        ("CONSTANT"@, 28, false)
    } else if i == 29 {
        ("IF"@, 29, true)
    } else if i == 30 {
        ("ELSE"@, 30, true)
    } else if i == 31 {
        ("THEN"@, 31, true)
    } else if i == 32 {
        ("DO"@, 32, true)
    } else if i == 33 {
        ("LOOP"@, 33, true)
    } else if i == 34 {
        ("BEGIN"@, 34, true)
    } else if i == 35 {
        ("UNTIL"@, 35, true)
    } else if i == 36 {
        ("WHILE"@, 36, true)
    } else if i == 37 {
        ("REPEAT"@, 37, true)
    } else if i == 38 {
        (".\""@, 38, true)
    } else {
        ("("@, 39, true)
    }
}

fn word_0(i: usize) -> (w: (&'static str, usize, bool))
    ensures
        (w.0@, w.1, w.2) == words_0(i as int),
{
    match i {
        0 => ("DUP", 0, false),
        1 => ("DROP", 1, false),
        2 => ("SWAP", 2, false),
        3 => ("OVER", 3, false),
        4 => ("ROT", 4, false),
        5 => ("@", 5, false),
        6 => ("!", 6, false),
        7 => ("+", 7, false),
        8 => ("-", 8, false),
        9 => ("*", 9, false),
        10 => ("/", 10, false),
        11 => ("MOD", 11, false),
        12 => ("=", 12, false),
        13 => ("<", 13, false),
        14 => (">", 14, false),
        15 => ("AND", 15, false),
        16 => ("OR", 16, false),
        17 => ("NOT", 17, false),
        18 => ("EMIT", 18, false),
        19 => ("KEY", 19, false),
        20 => ("CR", 20, false),
        21 => (".", 21, false),
        22 => (".S", 22, false),
        23 => (":", 23, false),
        24 => (";", 24, true),
        25 => ("CREATE", 25, false),
        26 => ("DOES>", 26, true),
        27 => ("VARIABLE", 27, false),
        28 => ("CONSTANT", 28, false),
        29 => ("IF", 29, true),
        30 => ("ELSE", 30, true),
        31 => ("THEN", 31, true),
        32 => ("DO", 32, true),
        33 => ("LOOP", 33, true),
        34 => ("BEGIN", 34, true),
        35 => ("UNTIL", 35, true),
        36 => ("WHILE", 36, true),
        37 => ("REPEAT", 37, true),
        38 => (".\"", 38, true),
        _ => ("(", 39, true),
    }
}

/// The built-in words from the 41st on: name, number, and whether the word is run at compile time.
pub open spec fn words_40(i: int) -> (Seq<char>, usize, bool) {
    if i == 40 {
        ("\\"@, 40, true)
    } else if i == 41 {
        ("WORDS"@, 41, false)
    } else if i == 42 {
        ("SEE"@, 42, false)
    } else if i == 43 {
        ("QUIT"@, 43, false)
    } else if i == 44 {
        ("BYE"@, 44, false)
    } else if i == 45 {
        ("SEND"@, 45, false)
    } else if i == 46 {
        ("RECV"@, 46, false)
    } else if i == 47 {
        ("PEERS"@, 47, false)
    } else if i == 48 {
        ("REPLICATE"@, 48, false)
    } else if i == 49 {
        ("MUTATE"@, 49, false)
    } else if i == 50 {
        ("RECURSE"@, 50, true)
    } else if i == 51 {
        ("MESH-STATUS"@, 51, false)
    } else if i == 52 {
        ("PROPOSE"@, 52, false)
    } else if i == 53 {
        ("LOAD"@, 53, false)
    } else if i == 54 {
        ("CAPACITY"@, 54, false)
    } else if i == 55 {
        ("ID"@, 55, false)
    } else if i == 56 {
        ("TYPE"@, 56, false)
    } else if i == 57 {
        ("GOAL\""@, 57, true)
    } else if i == 58 {
        ("GOALS"@, 58, false)
    } else if i == 59 {
        ("TASKS"@, 59, false)
    } else if i == 60 {
        ("TASK-STATUS"@, 60, false)
    } else if i == 61 {
        ("CANCEL"@, 61, false)
    } else if i == 62 {
        ("STEER"@, 62, false)
    } else if i == 63 {
        ("REPORT"@, 63, false)
    } else if i == 64 {
        ("CLAIM"@, 64, false)
    } else if i == 65 {
        ("COMPLETE"@, 65, false)
    } else if i == 66 {
        ("GOAL{"@, 66, true)
    } else if i == 67 {
        ("EVAL\""@, 67, true)
    } else if i == 68 {
        ("RESULT"@, 68, false)
    } else if i == 69 {
        ("AUTO-CLAIM"@, 69, false)
    } else if i == 70 {
        ("TIMEOUT"@, 70, false)
    } else if i == 71 {
        ("GOAL-RESULT"@, 71, false)
    } else if i == 72 {
        ("FILE-READ\""@, 72, true)
    } else if i == 73 {
        ("FILE-WRITE\""@, 73, true)
    } else if i == 74 {
        ("FILE-EXISTS\""@, 74, true)
    } else if i == 75 {
        ("FILE-LIST\""@, 75, true)
    } else if i == 76 {
        ("FILE-DELETE\""@, 76, true)
    } else if i == 77 {
        ("HTTP-GET\""@, 77, true)
    } else if i == 78 {
        ("HTTP-POST\""@, 78, true)
    } else {
        ("SHELL\""@, 79, true)
    }
}

fn word_40(i: usize) -> (w: (&'static str, usize, bool))
    ensures
        (w.0@, w.1, w.2) == words_40(i as int),
{
    match i {
        40 => ("\\", 40, true),
        41 => ("WORDS", 41, false),
        42 => ("SEE", 42, false),
        43 => ("QUIT", 43, false),
        44 => ("BYE", 44, false),
        45 => ("SEND", 45, false),
        46 => ("RECV", 46, false),
        47 => ("PEERS", 47, false),
        48 => ("REPLICATE", 48, false),
        49 => ("MUTATE", 49, false),
        50 => ("RECURSE", 50, true),
        51 => ("MESH-STATUS", 51, false),
        52 => ("PROPOSE", 52, false),
        53 => ("LOAD", 53, false),
        54 => ("CAPACITY", 54, false),
        55 => ("ID", 55, false),
        56 => ("TYPE", 56, false),
        57 => ("GOAL\"", 57, true),
        58 => ("GOALS", 58, false),
        59 => ("TASKS", 59, false),
        60 => ("TASK-STATUS", 60, false),
        61 => ("CANCEL", 61, false),
        62 => ("STEER", 62, false),
        63 => ("REPORT", 63, false),
        64 => ("CLAIM", 64, false),
        65 => ("COMPLETE", 65, false),
        66 => ("GOAL{", 66, true),
        67 => ("EVAL\"", 67, true),
        68 => ("RESULT", 68, false),
        69 => ("AUTO-CLAIM", 69, false),
        70 => ("TIMEOUT", 70, false),
        71 => ("GOAL-RESULT", 71, false),
        72 => ("FILE-READ\"", 72, true),
        73 => ("FILE-WRITE\"", 73, true),
        74 => ("FILE-EXISTS\"", 74, true),
        75 => ("FILE-LIST\"", 75, true),
        76 => ("FILE-DELETE\"", 76, true),
        77 => ("HTTP-GET\"", 77, true),
        78 => ("HTTP-POST\"", 78, true),
        _ => ("SHELL\"", 79, true),
    }
}

/// The built-in words from the 81st on: name, number, and whether the word is run at compile time.
pub open spec fn words_80(i: int) -> (Seq<char>, usize, bool) {
    if i == 80 {
        ("ENV\""@, 80, true)
    } else if i == 81 {
        ("TIMESTAMP"@, 81, false)
    } else if i == 82 {
        ("SLEEP"@, 82, false)
    } else if i == 83 {
        ("SANDBOX-ON"@, 83, false)
    } else if i == 84 {
        ("SANDBOX-OFF"@, 84, false)
    } else if i == 85 {
        ("IO-LOG"@, 85, false)
    } else if i == 86 {
        ("MUTATE"@, 86, false)
    } else if i == 87 {
        ("MUTATE-WORD\""@, 87, true)
    } else if i == 88 {
        ("UNDO-MUTATE"@, 88, false)
    } else if i == 89 {
        ("MUTATIONS"@, 89, false)
    } else if i == 90 {
        ("FITNESS"@, 90, false)
    } else if i == 91 {
        ("LEADERBOARD"@, 91, false)
    } else if i == 92 {
        ("RATE"@, 92, false)
    } else if i == 93 {
        ("EVOLVE"@, 93, false)
    } else if i == 94 {
        ("AUTO-EVOLVE"@, 94, false)
    } else if i == 95 {
        ("BENCHMARK\""@, 95, true)
    } else if i == 96 {
        ("TRUST"@, 96, false)
    } else if i == 97 {
        ("TRUST-ALL"@, 97, false)
    } else if i == 98 {
        ("TRUST-NONE"@, 98, false)
    } else if i == 99 {
        ("SHELL-ENABLE"@, 99, false)
    } else if i == 100 {
        ("REIDENTIFY"@, 199, false)
    } else if i == 101 {
        ("SAVE"@, 200, false)
    } else if i == 102 {
        ("LOAD-STATE"@, 201, false)
    } else if i == 103 {
        ("AUTO-SAVE"@, 202, false)
    } else if i == 104 {
        ("RESET"@, 203, false)
    } else if i == 105 {
        ("SNAPSHOTS"@, 204, false)
    } else if i == 106 {
        ("SNAPSHOT"@, 205, false)
    } else if i == 107 {
        ("RESTORE"@, 206, false)
    } else if i == 108 {
        ("I"@, 215, false)
    } else if i == 109 {
        ("J"@, 216, false)
    } else if i == 110 {
        ("SPAWN"@, 220, false)
    } else if i == 111 {
        ("SPAWN-N"@, 221, false)
    } else if i == 112 {
        ("PACKAGE"@, 222, false)
    } else if i == 113 {
        ("PACKAGE-SIZE"@, 223, false)
    } else if i == 114 {
        ("CHILDREN"@, 224, false)
    } else if i == 115 {
        ("FAMILY"@, 225, false)
    } else if i == 116 {
        ("GENERATION"@, 226, false)
    } else if i == 117 {
        ("KILL-CHILD"@, 227, false)
    } else if i == 118 {
        ("REPLICATE-TO\""@, 228, true)
    } else {
        ("ACCEPT-REPLICATE"@, 229, false)
    }
}

fn word_80(i: usize) -> (w: (&'static str, usize, bool))
    ensures
        (w.0@, w.1, w.2) == words_80(i as int),
{
    match i {
        80 => ("ENV\"", 80, true),
        81 => ("TIMESTAMP", 81, false),
        82 => ("SLEEP", 82, false),
        83 => ("SANDBOX-ON", 83, false),
        84 => ("SANDBOX-OFF", 84, false),
        85 => ("IO-LOG", 85, false),
        86 => ("MUTATE", 86, false),
        87 => ("MUTATE-WORD\"", 87, true),
        88 => ("UNDO-MUTATE", 88, false),
        89 => ("MUTATIONS", 89, false),
        90 => ("FITNESS", 90, false),
        91 => ("LEADERBOARD", 91, false),
        92 => ("RATE", 92, false),
        93 => ("EVOLVE", 93, false),
        94 => ("AUTO-EVOLVE", 94, false),
        95 => ("BENCHMARK\"", 95, true),
        96 => ("TRUST", 96, false),
        97 => ("TRUST-ALL", 97, false),
        98 => ("TRUST-NONE", 98, false),
        99 => ("SHELL-ENABLE", 99, false),
        100 => ("REIDENTIFY", 199, false),
        101 => ("SAVE", 200, false),
        102 => ("LOAD-STATE", 201, false),
        103 => ("AUTO-SAVE", 202, false),
        104 => ("RESET", 203, false),
        105 => ("SNAPSHOTS", 204, false),
        106 => ("SNAPSHOT", 205, false),
        107 => ("RESTORE", 206, false),
        108 => ("I", 215, false),
        109 => ("J", 216, false),
        110 => ("SPAWN", 220, false),
        111 => ("SPAWN-N", 221, false),
        112 => ("PACKAGE", 222, false),
        113 => ("PACKAGE-SIZE", 223, false),
        114 => ("CHILDREN", 224, false),
        115 => ("FAMILY", 225, false),
        116 => ("GENERATION", 226, false),
        117 => ("KILL-CHILD", 227, false),
        118 => ("REPLICATE-TO\"", 228, true),
        _ => ("ACCEPT-REPLICATE", 229, false),
    }
}

/// The built-in words from the 121st on: name, number, and whether the word is run at compile time.
pub open spec fn words_120(i: int) -> (Seq<char>, usize, bool) {
    if i == 120 {
        ("DENY-REPLICATE"@, 230, false)
    } else if i == 121 {
        ("QUARANTINE"@, 231, false)
    } else if i == 122 {
        ("MAX-CHILDREN"@, 232, false)
    } else if i == 123 {
        ("WATCH\""@, 300, true)
    } else if i == 124 {
        ("WATCH-FILE\""@, 301, true)
    } else if i == 125 {
        ("WATCH-PROC\""@, 302, true)
    } else if i == 126 {
        ("WATCHES"@, 303, false)
    } else if i == 127 {
        ("UNWATCH"@, 304, false)
    } else if i == 128 {
        ("WATCH-LOG"@, 305, false)
    } else if i == 129 {
        ("ON-ALERT\""@, 306, true)
    } else if i == 130 {
        ("ALERTS"@, 307, false)
    } else if i == 131 {
        ("ACK"@, 308, false)
    } else if i == 132 {
        ("ALERT-HISTORY"@, 309, false)
    } else if i == 133 {
        ("DASHBOARD"@, 310, false)
    } else if i == 134 {
        ("HEALTH"@, 311, false)
    } else if i == 135 {
        ("UPTIME"@, 312, false)
    } else if i == 136 {
        ("EVERY"@, 313, false)
    } else if i == 137 {
        ("SCHEDULE"@, 314, false)
    } else if i == 138 {
        ("UNSCHED"@, 315, false)
    } else if i == 139 {
        ("HEAL"@, 316, false)
    } else if i == 140 {
        ("HEALTH-PORT"@, 317, false)
    } else if i == 141 {
        ("ALERT-THRESHOLD"@, 318, true)
    } else if i == 142 {
        ("WS-STATUS"@, 320, false)
    } else if i == 143 {
        ("WS-CLIENTS"@, 321, false)
    } else if i == 144 {
        ("WS-PORT"@, 322, false)
    } else if i == 145 {
        ("WS-BROADCAST\""@, 323, true)
    } else if i == 146 {
        ("DISCOVER"@, 330, false)
    } else if i == 147 {
        ("AUTO-DISCOVER"@, 331, false)
    } else if i == 148 {
        ("SHARE\""@, 332, true)
    } else if i == 149 {
        ("SHARE-ALL"@, 333, false)
    } else if i == 150 {
        ("AUTO-SHARE"@, 334, false)
    } else if i == 151 {
        ("SHARED-WORDS"@, 335, false)
    } else if i == 152 {
        ("AUTO-SPAWN"@, 336, false)
    } else if i == 153 {
        ("AUTO-CULL"@, 337, false)
    } else if i == 154 {
        ("MIN-UNITS"@, 338, false)
    } else if i == 155 {
        ("MAX-UNITS"@, 339, false)
    } else if i == 156 {
        ("SWARM-STATUS"@, 340, false)
    } else if i == 157 {
        ("TRUST-ALL"@, 350, false)
    } else if i == 158 {
        ("TRUST-MESH"@, 351, false)
    } else {
        ("TRUST-FAMILY"@, 352, false)
    }
}

fn word_120(i: usize) -> (w: (&'static str, usize, bool))
    ensures
        (w.0@, w.1, w.2) == words_120(i as int),
{
    match i {
        120 => ("DENY-REPLICATE", 230, false),
        121 => ("QUARANTINE", 231, false),
        122 => ("MAX-CHILDREN", 232, false),
        123 => ("WATCH\"", 300, true),
        124 => ("WATCH-FILE\"", 301, true),
        125 => ("WATCH-PROC\"", 302, true),
        126 => ("WATCHES", 303, false),
        127 => ("UNWATCH", 304, false),
        128 => ("WATCH-LOG", 305, false),
        129 => ("ON-ALERT\"", 306, true),
        130 => ("ALERTS", 307, false),
        131 => ("ACK", 308, false),
        132 => ("ALERT-HISTORY", 309, false),
        133 => ("DASHBOARD", 310, false),
        134 => ("HEALTH", 311, false),
        135 => ("UPTIME", 312, false),
        136 => ("EVERY", 313, false),
        137 => ("SCHEDULE", 314, false),
        138 => ("UNSCHED", 315, false),
        139 => ("HEAL", 316, false),
        140 => ("HEALTH-PORT", 317, false),
        141 => ("ALERT-THRESHOLD", 318, true),
        142 => ("WS-STATUS", 320, false),
        143 => ("WS-CLIENTS", 321, false),
        144 => ("WS-PORT", 322, false),
        145 => ("WS-BROADCAST\"", 323, true),
        146 => ("DISCOVER", 330, false),
        147 => ("AUTO-DISCOVER", 331, false),
        148 => ("SHARE\"", 332, true),
        149 => ("SHARE-ALL", 333, false),
        150 => ("AUTO-SHARE", 334, false),
        151 => ("SHARED-WORDS", 335, false),
        152 => ("AUTO-SPAWN", 336, false),
        153 => ("AUTO-CULL", 337, false),
        154 => ("MIN-UNITS", 338, false),
        155 => ("MAX-UNITS", 339, false),
        156 => ("SWARM-STATUS", 340, false),
        157 => ("TRUST-ALL", 350, false),
        158 => ("TRUST-MESH", 351, false),
        _ => ("TRUST-FAMILY", 352, false),
    }
}

/// The built-in words from the 161st on: name, number, and whether the word is run at compile time.
pub open spec fn words_160(i: int) -> (Seq<char>, usize, bool) {
    if i == 160 {
        ("TRUST-NONE"@, 353, false)
    } else if i == 161 {
        ("TRUST-LEVEL"@, 354, false)
    } else if i == 162 {
        ("REQUESTS"@, 355, false)
    } else if i == 163 {
        ("ACCEPT"@, 356, false)
    } else if i == 164 {
        ("DENY"@, 357, false)
    } else if i == 165 {
        ("DENY-ALL"@, 358, false)
    } else if i == 166 {
        ("REPLICATION-LOG"@, 359, false)
    } else if i == 167 {
        ("GOAL-COUNT"@, 400, false)
    } else if i == 168 {
        ("TASK-COUNT"@, 401, false)
    } else if i == 169 {
        ("WATCH-COUNT"@, 402, false)
    } else if i == 170 {
        ("ALERT-COUNT"@, 403, false)
    } else if i == 171 {
        ("CHILD-COUNT"@, 404, false)
    } else if i == 172 {
        ("MESH-AVG-FITNESS"@, 405, false)
    } else if i == 173 {
        ("CHECK-WATCHES"@, 406, false)
    } else if i == 174 {
        ("RUN-HANDLERS"@, 407, false)
    } else if i == 175 {
        ("RUN-BENCHMARK"@, 408, false)
    } else if i == 176 {
        ("MUTATE-RANDOM"@, 409, false)
    } else if i == 177 {
        ("UNDO-LAST-MUTATION"@, 410, false)
    } else if i == 178 {
        ("PEER-COUNT"@, 411, false)
    } else if i == 179 {
        ("SMART-MUTATE"@, 412, false)
    } else if i == 180 {
        ("MUTATION-REPORT"@, 413, false)
    } else if i == 181 {
        ("MUTATION-STATS"@, 414, false)
    } else if i == 182 {
        ("SUBTASK{"@, 210, true)
    } else if i == 183 {
        ("FORK"@, 211, false)
    } else if i == 184 {
        ("RESULTS"@, 212, false)
    } else if i == 185 {
        ("REDUCE\""@, 213, true)
    } else {
        ("PROGRESS"@, 214, false)
    }
}

fn word_160(i: usize) -> (w: (&'static str, usize, bool))
    ensures
        (w.0@, w.1, w.2) == words_160(i as int),
{
    match i {
        160 => ("TRUST-NONE", 353, false),
        161 => ("TRUST-LEVEL", 354, false),
        162 => ("REQUESTS", 355, false),
        163 => ("ACCEPT", 356, false),
        164 => ("DENY", 357, false),
        165 => ("DENY-ALL", 358, false),
        166 => ("REPLICATION-LOG", 359, false),
        167 => ("GOAL-COUNT", 400, false),
        168 => ("TASK-COUNT", 401, false),
        169 => ("WATCH-COUNT", 402, false),
        170 => ("ALERT-COUNT", 403, false),
        171 => ("CHILD-COUNT", 404, false),
        172 => ("MESH-AVG-FITNESS", 405, false),
        173 => ("CHECK-WATCHES", 406, false),
        174 => ("RUN-HANDLERS", 407, false),
        175 => ("RUN-BENCHMARK", 408, false),
        176 => ("MUTATE-RANDOM", 409, false),
        177 => ("UNDO-LAST-MUTATION", 410, false),
        178 => ("PEER-COUNT", 411, false),
        179 => ("SMART-MUTATE", 412, false),
        180 => ("MUTATION-REPORT", 413, false),
        181 => ("MUTATION-STATS", 414, false),
        182 => ("SUBTASK{", 210, true),
        183 => ("FORK", 211, false),
        184 => ("RESULTS", 212, false),
        185 => ("REDUCE\"", 213, true),
        _ => ("PROGRESS", 214, false),
    }
}

/// The built-in word at a place.
pub open spec fn builtin(i: int) -> (Seq<char>, usize, bool) {
    if i < 40 {
        words_0(i)
    } else if i < 80 {
        words_40(i)
    } else if i < 120 {
        words_80(i)
    } else if i < 160 {
        words_120(i)
    } else {
        words_160(i)
    }
}

fn builtin_word(i: usize) -> (w: (&'static str, usize, bool))
    ensures
        (w.0@, w.1, w.2) == builtin(i as int),
{
    if i < 40 {
        word_0(i)
    } else if i < 80 {
        word_40(i)
    } else if i < 120 {
        word_80(i)
    } else if i < 160 {
        word_120(i)
    } else {
        word_160(i)
    }
}

/// The dictionary entry of a built-in word.
pub open spec fn entry_of(w: (Seq<char>, usize, bool)) -> WordV {
    WordV { name: w.0, immediate: w.2, hidden: false, body: seq![Op::Primitive(w.1)] }
}

/// The machine with one more built-in word.
#[verifier::opaque]
pub open spec fn with_word(v: VmV, w: (Seq<char>, usize, bool)) -> VmV {
    VmV { names: v.names.push((w.0, w.1)), dict: v.dict.push(entry_of(w)), ..v }
}

/// The machine with the first built-in words.
pub open spec fn registered(v: VmV, n: int) -> VmV
    decreases n,
{
    if n <= 0 {
        v
    } else {
        with_word(registered(v, n - 1), builtin(n - 1))
    }
}

impl VM {
    fn register(&mut self, name: &str, id: usize, immediate: bool)
        ensures
            final(self)@ == with_word(old(self)@, (name@, id, immediate)),
    {
        reveal(with_word);
        let ghost names = self@.names;
        let ghost dict = self@.dict;
        self.primitive_names.push(PrimName { name: text(name), id });
        let mut body: Vec<Instruction> = Vec::new();
        body.push(Instruction::Primitive(id));
        assert(crate::types::ops(body@) =~= seq![Op::Primitive(id)]);
        self.dictionary.push(Entry { name: text(name), immediate, hidden: false, body });
        assert(self@.names =~= names.push((name@, id)));
        assert(self@.dict =~= dict.push(entry_of((name@, id, immediate))));
    }

    /// Adds the built-in words to the dictionary.
    pub(crate) fn register_primitives(&mut self)
        ensures
            final(self)@ == registered(old(self)@, WORD_COUNT as int),
    {
        let mut i: usize = 0;
        while i < WORD_COUNT
            invariant
                i <= WORD_COUNT,
                self@ == registered(old(self)@, i as int),
            decreases WORD_COUNT - i,
        {
            let (name, id, immediate) = builtin_word(i);
            self.register(name, id, immediate);
            i = i + 1;
        }
    }
}

/// A machine with the built-in words has them in their order, behind the words that it had.
pub proof fn law_registered(v: VmV, n: int)
    requires
        0 <= n,
    ensures
        registered(v, n).dict.len() == v.dict.len() + n,
        forall|i: int|
            0 <= i < n ==> #[trigger] registered(v, n).dict[v.dict.len() + i] == entry_of(builtin(i)),
        forall|i: int| 0 <= i < v.dict.len() ==> #[trigger] registered(v, n).dict[i] == v.dict[i],
    decreases n,
{
    reveal(with_word);
    if n > 0 {
        law_registered(v, n - 1);
    }
}

} // verus!
