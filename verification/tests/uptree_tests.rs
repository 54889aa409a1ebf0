use multicell::config::CellConfig;
use multicell::uptree_spec::{AllowedTree, ContainerSpec, Manifest, UpTreeSpec, UptreeSpecError, VmSpec};

fn tree_error(parent_list: Vec<usize>) -> &'static str {
    match UpTreeSpec::new("t", parent_list.clone()) {
        Err(UptreeSpecError::Tree { func_name, id, parent_list: pl, reason }) => {
            assert_eq!(func_name, "UptreeSpec::new");
            assert_eq!(id, "t");
            assert_eq!(pl, parent_list);
            reason
        },
        Err(e) => panic!("unexpected {:?}", e),
        Ok(_) => "",
    }
}

#[test]
fn small_parent_lists_are_trees() {
    assert_eq!(tree_error(vec![]), "");
    assert_eq!(tree_error(vec![5]), "");
}

#[test]
fn a_tree_with_one_root_is_accepted() {
    assert_eq!(tree_error(vec![0, 0, 1, 1, 2]), "");
    assert_eq!(tree_error(vec![1, 1, 1]), "");
}

#[test]
fn zero_or_two_roots_are_refused() {
    assert_eq!(tree_error(vec![1, 0]), "More than one root");
    assert_eq!(tree_error(vec![0, 1, 0]), "More than one root");
}

#[test]
fn a_cycle_is_refused() {
    assert_eq!(tree_error(vec![0, 2, 3, 1]), "Cycle");
}

#[test]
fn a_parent_out_of_range_is_refused() {
    assert_eq!(tree_error(vec![0, 7, 1]), "Index out of range");
}

#[test]
fn containers_and_vms() {
    let a = AllowedTree::new("a");
    let b = AllowedTree::new("b");
    assert_eq!(a.get_name(), "a");
    let c = ContainerSpec::new("c1", "img", vec!["x", "y"], &vec![&a]).unwrap();
    assert_eq!(c.get_id(), "c1");
    assert_eq!(c.get_image(), "img");
    assert_eq!(c.get_allowed_trees().len(), 1);
    let up = UpTreeSpec::new("u", vec![0, 0]).unwrap();
    let vm = VmSpec::new("vm1", "vimg", CellConfig::Large, &vec![&a, &b], vec![&c, &c], vec![&up]).unwrap();
    assert_eq!(vm.get_id(), "vm1");
    assert_eq!(vm.get_containers().len(), 2);
    assert_eq!(vm.get_allowed_trees().len(), 2);
    match VmSpec::new("vm2", "vimg", CellConfig::Large, &vec![&a], vec![&c], vec![&up]) {
        Err(UptreeSpecError::Containers { func_name, n_containers }) => {
            assert_eq!(func_name, "VmSpec::new");
            assert_eq!(n_containers, 1);
        },
        other => panic!("unexpected {:?}", other),
    }
    let cb = ContainerSpec::new("cb", "img", vec![], &vec![&b]).unwrap();
    match VmSpec::new("vm3", "vimg", CellConfig::Small, &vec![&a], vec![&c, &cb], vec![]) {
        Err(UptreeSpecError::Allowed { func_name, vm_id, tree }) => {
            assert_eq!(func_name, "VmSpec::new");
            assert_eq!(vm_id, "cb");
            assert_eq!(tree.get_name(), "b");
        },
        other => panic!("unexpected {:?}", other),
    }
}

#[test]
fn manifests() {
    let a = AllowedTree::new("a");
    let b = AllowedTree::new("b");
    let c = ContainerSpec::new("c1", "img", vec![], &vec![&a]).unwrap();
    let vm = VmSpec::new("vm1", "vimg", CellConfig::Medium, &vec![&a], vec![&c], vec![]).unwrap();
    let up = UpTreeSpec::new("u", vec![0]).unwrap();
    let m = Manifest::new("m", CellConfig::Medium, &a, &vec![&a, &b], vec![&vm], vec![&up]).unwrap();
    assert_eq!(m.get_id(), "m");
    assert_eq!(m.get_deployment_tree().get_name(), "a");
    assert_eq!(m.get_allowed_trees().len(), 2);
    assert_eq!(m.get_vms().len(), 1);
    assert_eq!(m.get_vms()[0].get_id(), "vm1");
    assert_eq!(m.get_trees().len(), 1);
    let vm_b = VmSpec::new("vmb", "vimg", CellConfig::Medium, &vec![&b], vec![], vec![]).unwrap();
    match Manifest::new("m2", CellConfig::Medium, &a, &vec![&a], vec![&vm, &vm_b], vec![]) {
        Err(UptreeSpecError::Allowed { func_name, vm_id, tree }) => {
            assert_eq!(func_name, "new");
            assert_eq!(vm_id, "vmb");
            assert_eq!(tree.get_name(), "b");
        },
        other => panic!("unexpected {:?}", other),
    }
}
