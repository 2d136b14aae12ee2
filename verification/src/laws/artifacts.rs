//! What artifacts are for.

use vstd::prelude::*;

use super::registries::{is_behind, lemma_joined};
use crate::paths::PathStyle;
use crate::retrain::artifact::{
    diagonal_matrix, diagonal_matrix_entry, matrix_bytes, matrix_checksum, sha256, ArtifactError,
    ArtifactPaths, RetrainArtifact, Timestamp,
};
use crate::retrain::weights::WeightModel;
use crate::text::{decimal, decimal_reads_back, digit_char, digits_value};

verus! {

/// Whether `bytes` are the bytes of the words of `matrix`, in order, each word
/// with its least significant byte first.
pub open spec fn are_bytes_of(bytes: Seq<u8>, matrix: Seq<u32>) -> bool {
    &&& bytes.len() == 4 * matrix.len()
    &&& forall|k: int|
        0 <= k < matrix.len() ==> {
            let word = #[trigger] matrix[k];
            word == bytes[4 * k] + 0x100 * bytes[4 * k + 1] + 0x1_0000 * bytes[4 * k + 2]
                + 0x100_0000 * bytes[4 * k + 3]
        }
}

/// Whether `text` writes `bytes` in lower-case hexadecimal digits, two for every
/// byte.
pub open spec fn is_hex_of(text: Seq<char>, bytes: Seq<u8>) -> bool {
    &&& text.len() == 2 * bytes.len()
    &&& forall|k: int|
        0 <= k < bytes.len() ==> {
            let byte = #[trigger] bytes[k];
            &&& text[2 * k] == "0123456789abcdef"@[byte as int / 16]
            &&& text[2 * k + 1] == "0123456789abcdef"@[byte as int % 16]
        }
}

/// Whether `checksum` is the SHA-256 digest of the bytes of `matrix`, in
/// hexadecimal.
pub open spec fn is_checksum_of(checksum: Seq<char>, matrix: Seq<u32>) -> bool {
    exists|bytes: Seq<u8>| #[trigger]
        are_bytes_of(bytes, matrix) && is_hex_of(checksum, sha256(bytes))
}

/// The sum of four bytes tells them.
proof fn lemma_sum_of_bytes(a: u8, b: u8, c: u8, d: u8, word: u32)
    by (bit_vector)
    requires
        word == a + 0x100 * b + 0x1_0000 * c + 0x100_0000 * d,
    ensures
        a == word % 0x100,
        b == word / 0x100 % 0x100,
        c == word / 0x1_0000 % 0x100,
        d == word / 0x100_0000,
{
}

/// A word is the sum of its bytes.
proof fn lemma_word_is_sum(word: u32)
    by (bit_vector)
    ensures
        word == word % 0x100 + 0x100 * (word / 0x100 % 0x100) + 0x1_0000 * (word / 0x1_0000
            % 0x100) + 0x100_0000 * (word / 0x100_0000),
{
}

/// The bytes that the library lists are the bytes of the matrix.
proof fn lemma_bytes_of_matrix(matrix: Seq<u32>)
    ensures
        are_bytes_of(matrix_bytes(matrix), matrix),
    decreases matrix.len(),
{
    if matrix.len() > 0 {
        let rest = matrix.drop_last();
        lemma_bytes_of_matrix(rest);
        let bytes = matrix_bytes(matrix);
        let n = rest.len() as int;
        assert forall|k: int| 0 <= k < matrix.len() implies {
            let word = #[trigger] matrix[k];
            word == bytes[4 * k] + 0x100 * bytes[4 * k + 1] + 0x1_0000 * bytes[4 * k + 2]
                + 0x100_0000 * bytes[4 * k + 3]
        } by {
            if k < n {
                assert(rest[k] == matrix[k]);
                let before = matrix_bytes(rest);
                assert(bytes[4 * k] == before[4 * k]);
                assert(bytes[4 * k + 1] == before[4 * k + 1]);
                assert(bytes[4 * k + 2] == before[4 * k + 2]);
                assert(bytes[4 * k + 3] == before[4 * k + 3]);
            } else {
                lemma_word_is_sum(matrix[k]);
            }
        }
    }
}

/// There are no other bytes of the matrix.
proof fn lemma_bytes_are_told(bytes: Seq<u8>, matrix: Seq<u32>)
    requires
        are_bytes_of(bytes, matrix),
    ensures
        bytes == matrix_bytes(matrix),
{
    lemma_bytes_of_matrix(matrix);
    let told = matrix_bytes(matrix);
    assert forall|i: int| 0 <= i < bytes.len() implies bytes[i] == told[i] by {
        let k = i / 4;
        let word = matrix[k];
        lemma_sum_of_bytes(
            bytes[4 * k],
            bytes[4 * k + 1],
            bytes[4 * k + 2],
            bytes[4 * k + 3],
            word,
        );
        lemma_sum_of_bytes(told[4 * k], told[4 * k + 1], told[4 * k + 2], told[4 * k + 3], word);
        assert(i == 4 * k || i == 4 * k + 1 || i == 4 * k + 2 || i == 4 * k + 3);
    }
    assert(bytes =~= told);
}

/// The character of a hexadecimal digit.
pub proof fn lemma_hex_digit(d: int)
    requires
        0 <= d < 16,
    ensures
        digit_char(d) == "0123456789abcdef"@[d],
{
    reveal_strlit("0123456789abcdef");
}

/// The checksum of a matrix is what the library computes, and nothing else.
pub proof fn lemma_checksum(checksum: Seq<char>, matrix: Seq<u32>)
    ensures
        is_checksum_of(checksum, matrix) <==> checksum == matrix_checksum(matrix),
{
    lemma_bytes_of_matrix(matrix);
    let digest = sha256(matrix_bytes(matrix));
    let computed = matrix_checksum(matrix);
    assert(is_hex_of(computed, digest)) by {
        assert forall|k: int| 0 <= k < digest.len() implies {
            let byte = #[trigger] digest[k];
            &&& computed[2 * k] == "0123456789abcdef"@[byte as int / 16]
            &&& computed[2 * k + 1] == "0123456789abcdef"@[byte as int % 16]
        } by {
            lemma_hex_digit(digest[k] as int / 16);
            lemma_hex_digit(digest[k] as int % 16);
            assert((2 * k) / 2 == k && (2 * k) % 2 == 0);
            assert((2 * k + 1) / 2 == k && (2 * k + 1) % 2 == 1);
        }
    }
    if is_checksum_of(checksum, matrix) {
        let bytes = choose|bytes: Seq<u8>| #[trigger]
            are_bytes_of(bytes, matrix) && is_hex_of(checksum, sha256(bytes));
        lemma_bytes_are_told(bytes, matrix);
        assert forall|i: int| 0 <= i < checksum.len() implies checksum[i] == computed[i] by {
            let k = i / 2;
            let byte = digest[k];
            assert(i == 2 * k || i == 2 * k + 1);
        }
        assert(checksum =~= computed);
    }
}

/// The artifact of a model holds, in a square matrix, the weight that the model
/// gives each of its categories, brought to single precision, and zero everywhere
/// else. Its rows and columns are the categories as the model lists them. It tells
/// the version of the model, and its checksum is that of the matrix.
pub proof fn an_artifact_holds_the_weights_of_its_model<M: WeightModel, N: Fn(u64) -> u32>(
    model: &M,
    model_id: &str,
    signals_consumed: usize,
    narrow: &N,
    r: RetrainArtifact,
    i: int,
    j: int,
)
    requires
        call_ensures(
            RetrainArtifact::from_model::<M, N>,
            (model, model_id, signals_consumed, narrow),
            r,
        ),
    ensures
        call_ensures(M::categories, (model,), r.categories),
        r.weight_matrix@.len() == r.categories@.len() * r.categories@.len(),
        0 <= i < r.categories@.len() && 0 <= j < r.categories@.len() && i != j
            ==> r.weight_matrix@[i * r.categories@.len() + j] == 0,
        0 <= i < r.categories@.len() ==> call_ensures(
            *narrow,
            ((model.weights().weight)(r.categories@[i]@),),
            r.weight_matrix@[i * r.categories@.len() + i],
        ),
        r.version == model.weights().version,
        r.model_id@ == model_id@,
        r.signals_consumed == signals_consumed,
        is_checksum_of(r.checksum@, r.weight_matrix@),
        r.created_at.seconds >= 0,
        r.created_at.nanos < 1_000_000_000,
{
    lemma_checksum(r.checksum@, r.weight_matrix@);
    let n = r.categories@.len();
    let diagonal = choose|diagonal: Seq<u32>|
        {
            &&& #[trigger] diagonal_matrix(diagonal) == r.weight_matrix@
            &&& diagonal.len() == n
            &&& forall|i: int|
                0 <= i < diagonal.len() ==> call_ensures(
                    *narrow,
                    ((model.weights().weight)(r.categories@[i]@),),
                    #[trigger] diagonal[i],
                )
        };
    if 0 <= i < n && 0 <= j < n {
        diagonal_matrix_entry(diagonal, i, j);
    }
    if 0 <= i < n {
        diagonal_matrix_entry(diagonal, i, i);
        assert(call_ensures(
            *narrow,
            ((model.weights().weight)(r.categories@[i]@),),
            diagonal[i],
        ));
    }
}

/// The same of an artifact that is made with a time, which it tells.
pub proof fn a_dated_artifact_holds_the_weights_of_its_model<M: WeightModel, N: Fn(u64) -> u32>(
    model: &M,
    model_id: &str,
    signals_consumed: usize,
    narrow: &N,
    at: Timestamp,
    r: RetrainArtifact,
    i: int,
    j: int,
)
    requires
        call_ensures(
            RetrainArtifact::from_model_at::<M, N>,
            (model, model_id, signals_consumed, narrow, at),
            r,
        ),
    ensures
        call_ensures(M::categories, (model,), r.categories),
        r.weight_matrix@.len() == r.categories@.len() * r.categories@.len(),
        0 <= i < r.categories@.len() && 0 <= j < r.categories@.len() && i != j
            ==> r.weight_matrix@[i * r.categories@.len() + j] == 0,
        0 <= i < r.categories@.len() ==> call_ensures(
            *narrow,
            ((model.weights().weight)(r.categories@[i]@),),
            r.weight_matrix@[i * r.categories@.len() + i],
        ),
        r.version == model.weights().version,
        r.model_id@ == model_id@,
        r.signals_consumed == signals_consumed,
        is_checksum_of(r.checksum@, r.weight_matrix@),
        r.created_at == at,
{
    lemma_checksum(r.checksum@, r.weight_matrix@);
    let n = r.categories@.len();
    let diagonal = choose|diagonal: Seq<u32>|
        {
            &&& #[trigger] diagonal_matrix(diagonal) == r.weight_matrix@
            &&& diagonal.len() == n
            &&& forall|i: int|
                0 <= i < diagonal.len() ==> call_ensures(
                    *narrow,
                    ((model.weights().weight)(r.categories@[i]@),),
                    #[trigger] diagonal[i],
                )
        };
    if 0 <= i < n && 0 <= j < n {
        diagonal_matrix_entry(diagonal, i, j);
    }
    if 0 <= i < n {
        diagonal_matrix_entry(diagonal, i, i);
        assert(call_ensures(
            *narrow,
            ((model.weights().weight)(r.categories@[i]@),),
            diagonal[i],
        ));
    }
}

/// An artifact verifies if and only if its checksum is that of its matrix, and
/// it is accepted, as it is, if and only if it verifies. A refusal tells the model
/// and the version.
pub proof fn artifacts_verify_by_their_matrix(
    artifact: &RetrainArtifact,
    verified: bool,
    loaded: Result<RetrainArtifact, ArtifactError>,
)
    requires
        call_ensures(RetrainArtifact::verify, (artifact,), verified),
        call_ensures(RetrainArtifact::load, (*artifact,), loaded),
    ensures
        verified <==> is_checksum_of(artifact.checksum@, artifact.weight_matrix@),
        verified ==> loaded == Ok::<RetrainArtifact, ArtifactError>(*artifact),
        !verified ==> loaded == Err::<RetrainArtifact, ArtifactError>(
            ArtifactError::Corrupt { model_id: artifact.model_id, version: artifact.version },
        ),
{
    lemma_checksum(artifact.checksum@, artifact.weight_matrix@);
}

/// What a model's artifact is made of verifies and is accepted.
pub proof fn fresh_artifacts_are_accepted<M: WeightModel, N: Fn(u64) -> u32>(
    model: &M,
    model_id: &str,
    signals_consumed: usize,
    narrow: &N,
    artifact: RetrainArtifact,
    verified: bool,
    loaded: Result<RetrainArtifact, ArtifactError>,
)
    requires
        call_ensures(
            RetrainArtifact::from_model::<M, N>,
            (model, model_id, signals_consumed, narrow),
            artifact,
        ),
        call_ensures(RetrainArtifact::verify, (&artifact,), verified),
        call_ensures(RetrainArtifact::load, (artifact,), loaded),
    ensures
        verified,
        loaded == Ok::<RetrainArtifact, ArtifactError>(artifact),
{
}

/// A refusal in words.
pub proof fn refusals_in_words(error: &ArtifactError, text: String) -> (digits: Seq<char>)
    requires
        call_ensures(ArtifactError::message, (error,), text),
    ensures
        ({
            let ArtifactError::Corrupt { model_id, version } = *error;
            &&& text@ == "artifact integrity check failed for "@ + model_id@ + " v"@ + digits
            &&& digits_value(digits) == version
            &&& digits.len() > 0
            &&& forall|i: int| 0 <= i < digits.len() ==> '0' <= #[trigger] digits[i] <= '9'
        }),
{
    let ArtifactError::Corrupt { model_id, version } = *error;
    decimal_reads_back(version as nat);
    assert forall|i: int| 0 <= i < decimal(version as nat).len() implies '0'
        <= #[trigger] decimal(version as nat)[i] <= '9' by {
        assert(crate::text::is_digit(decimal(version as nat)[i]));
    }
    decimal(version as nat)
}

/// The files of an artifact lie in the directory, under the name of the model:
/// one with the version in decimal, and one for the latest version.
pub proof fn artifact_files_are_named_by_model_and_version(
    artifact: &RetrainArtifact,
    dir: &str,
    r: ArtifactPaths,
) -> (digits: Seq<char>)
    requires
        call_ensures(RetrainArtifact::paths, (artifact, dir, PathStyle::Slash), r),
    ensures
        ({
            let name = artifact.model_id@ + "_v"@ + digits + ".json"@;
            let latest = artifact.model_id@ + "_latest.json"@;
            &&& digits_value(digits) == artifact.version
            &&& digits.len() > 0
            &&& digits.len() > 1 ==> digits[0] != '0'
            &&& forall|i: int| 0 <= i < digits.len() ==> '0' <= #[trigger] digits[i] <= '9'
            &&& is_behind(r.versioned@, dir@, name)
            &&& is_behind(r.latest@, dir@, latest)
        }),
{
    let digits = decimal(artifact.version as nat);
    let name = artifact.model_id@ + "_v"@ + digits + ".json"@;
    let latest = artifact.model_id@ + "_latest.json"@;
    decimal_reads_back(artifact.version as nat);
    lemma_no_leading_zero(artifact.version as nat);
    assert forall|i: int| 0 <= i < digits.len() implies '0' <= #[trigger] digits[i] <= '9' by {
        assert(crate::text::is_digit(digits[i]));
    }
    lemma_joined(dir@, name);
    lemma_joined(dir@, latest);
    digits
}

/// The decimal text of a number of several digits does not start with zero.
pub proof fn lemma_no_leading_zero(n: nat)
    ensures
        decimal(n).len() > 1 ==> decimal(n)[0] != '0',
        n > 0 ==> decimal(n)[0] != '0',
    decreases n,
{
    if n >= 10 {
        lemma_no_leading_zero(n / 10);
        assert(decimal(n)[0] == decimal(n / 10)[0]) by {
            decimal_reads_back(n / 10);
        }
    }
}

/// A copy of an artifact says the same.
pub proof fn copies_of_artifacts_say_the_same(
    artifact: &RetrainArtifact,
    copy: RetrainArtifact,
    i: int,
)
    requires
        call_ensures(RetrainArtifact::clone, (artifact,), copy),
    ensures
        copy.model_id@ == artifact.model_id@,
        copy.version == artifact.version,
        copy.categories@.len() == artifact.categories@.len(),
        0 <= i < copy.categories@.len() ==> copy.categories@[i]@ == artifact.categories@[i]@,
        copy.weight_matrix@ == artifact.weight_matrix@,
        copy.checksum@ == artifact.checksum@,
        copy.created_at == artifact.created_at,
        copy.signals_consumed == artifact.signals_consumed,
{
    assert(copy@ == artifact@);
    assert(copy@.categories.len() == artifact@.categories.len());
    if 0 <= i < copy.categories@.len() {
        assert(copy@.categories[i] == artifact@.categories[i]);
    }
}

} // verus!
