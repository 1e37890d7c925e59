use evosim::chromosome::Chromosome;

fn known_genes() -> Vec<i64> {
    // 3.0, 1.0, 2.0 in millionths
    vec![3_000_000, 1_000_000, 2_000_000]
}

fn chromosome() -> Chromosome {
    Chromosome::new(known_genes())
}

#[test]
fn chromosome_test() {
    assert_eq!(chromosome().len(), known_genes().len());
}

#[test]
fn chromosome_genes_test() {
    let chromosome = chromosome();
    let genes = chromosome.genes();
    let known = known_genes();
    assert_eq!(genes.len(), known.len());
    for i in 0..known.len() {
        assert_eq!(genes[i], known[i]);
    }
}

#[test]
fn chromosome_set_gene_test() {
    let mut chromosome = chromosome();
    let multiplier: i64 = 10;
    for i in 0..chromosome.len() {
        let g = chromosome.gene(i);
        chromosome.set_gene(i, g * multiplier);
    }
    let known = known_genes();
    for i in 0..known.len() {
        assert_eq!(chromosome.gene(i), known[i] * multiplier);
    }
}

#[test]
fn chromosome_index_test() {
    let chromosome = chromosome();
    let known = known_genes();
    for i in 0..known.len() {
        assert_eq!(chromosome.gene(i), known[i]);
    }
}

#[test]
fn chromosome_from_vec_test() {
    let known = known_genes();
    let chromosome = Chromosome::new(known.clone());
    for i in 0..known.len() {
        assert_eq!(chromosome.gene(i), known[i]);
    }
}

#[test]
fn chromosome_into_vec_test() {
    let known = known_genes();
    let chromosome = chromosome();
    let genes = chromosome.into_genes();
    for i in 0..known.len() {
        assert_eq!(genes[i], known[i]);
    }
}
